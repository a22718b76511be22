//! Retry requests
//!
//! A client has the ability to retry requests, by sending additional copies
//! to the server if a response is considered retryable.
//!
//! The [`Builder`] makes it easier to configure what requests to retry, along
//! with including best practices by default, such as a retry budget.
//!
//! # Defaults
//!
//! A client uses [`standard()`] retry behavior by default. It retries
//! `429 Too Many Requests` and `503 Service Unavailable` responses for
//! idempotent requests, or requests with an `Idempotency-Key` header. It also
//! transparently retries failures where the server indicates that it did not
//! process the request.
//!
//! The standard policy makes at most three total attempts, uses exponential
//! backoff with jitter, honors `Retry-After`, and includes a per-host retry
//! budget. Providing a specific retry policy replaces the entire standard
//! policy. Use [`never()`] to disable all retries.
//!
//! HTTP response status retries can be added to a policy with
//! [`Builder::retry_on_status()`] or [`Builder::retry_on_statuses()`].
//!
//! The standard and custom policy builders include a retry budget that permits
//! 20% extra requests to be sent.
//!
//! # Scope
//!
//! A retry budget's history is always tracked per-host, so that a failing
//! host can never consume the retry allowance of a healthy one.
//!
//! The [`standard()`] and [`custom()`] policies apply to every request the
//! client makes. Use [`for_host()`] when only one host of several should be
//! retried at all.
//!
//! # Backoff
//!
//! Retries are spaced out with an exponential backoff, jittered to avoid
//! synchronizing many clients. [`Builder::backoff()`] sets the base delay,
//! which doubles with each attempt. A base of zero retries immediately.
//!
//! If a retryable response includes a `Retry-After` header, it is honored,
//! as long as it doesn't exceed the request's remaining timeout. If it would,
//! the request is not retried, and the response is returned as-is.
//!
//! # Classifiers
//!
//! Advanced custom policies can add a classifier that determines if a request
//! should be retried. Knowledge of the destination server's behavior is
//! required to make a safe classifier. **Requests should not be retried** if
//! the server cannot safely handle the same request twice, or if it causes
//! side effects.

pub mod backoff;
pub mod bucket;
pub mod budget;
pub mod builder;
pub mod calendar;
pub mod classify;
pub mod hosts;
pub mod load;
pub mod policy;
pub mod retry_after;
pub mod scope;

pub use builder::{any_host, custom, for_host, never, scoped, standard, Builder};
pub use policy::Policy;

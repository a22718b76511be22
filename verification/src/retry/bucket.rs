//! The token bucket of the `tower` crate.

use crate::retry::load;
use std::sync::Arc;
use tower::retry::budget::TpsBudget;
use vstd::prelude::*;

verus! {

/// The token bucket of the `tower` crate. Two of them are the same just where they
/// are one.
#[verifier::external_type_specification]
#[verifier::external_body]
pub struct ExTpsBudget(TpsBudget);

/// What a token bucket was made with: the window in seconds, the retries per
/// second that are always allowed, and the extra load, by its digits and decimal
/// places.
pub uninterp spec fn budget_terms(budget: TpsBudget) -> (nat, nat, (nat, nat));

/// The host that a token bucket was made for.
pub uninterp spec fn budget_host(budget: TpsBudget) -> Seq<char>;

/// `TpsBudget::new`, with the extra load as the number that the digits and the
/// decimal places write. It panics outside of these bounds. Each call makes a
/// bucket of its own, so the one that is made here, for that host, was made for no
/// other; the bucket itself knows nothing of hosts.
#[verifier::external_body]
pub(crate) fn new_budget(
    host: &str,
    window_secs: u64,
    min_per_sec: u32,
    digits: u32,
    places: u32,
) -> (r: TpsBudget)
    requires
        1 <= window_secs <= 60,
        min_per_sec < i32::MAX,
        load::in_range(digits as nat, places as nat),
    ensures
        budget_host(r) == host@,
        budget_terms(r) == (
            window_secs as nat,
            min_per_sec as nat,
            (digits as nat, places as nat),
        ),
{
    let extra_load = format!("{digits}e-{places}").parse().unwrap();
    TpsBudget::new(std::time::Duration::from_secs(window_secs), min_per_sec, extra_load)
}

/// That a bucket counted a request: only [`deposit`] makes one.
pub struct Counted {
    bucket: Arc<TpsBudget>,
}

impl Counted {
    /// The bucket.
    pub closed spec fn bucket(self) -> TpsBudget {
        *self.bucket
    }
}

/// What a bucket answered when it was asked to pay for a retry: only [`withdraw`]
/// makes one.
pub struct Asked {
    bucket: Arc<TpsBudget>,
    paid: bool,
}

impl Asked {
    /// The bucket.
    pub closed spec fn bucket(self) -> TpsBudget {
        *self.bucket
    }

    /// Whether the bucket paid.
    pub closed spec fn paid(self) -> bool {
        self.paid
    }

    /// Whether the bucket paid.
    pub fn has_paid(&self) -> (r: bool)
        ensures
            r == self.paid(),
    {
        self.paid
    }
}

/// `TpsBudget::deposit`: a request that was not retried pays into that bucket.
/// What is in the bucket also depends on the time, and nothing is said of it.
#[verifier::external_body]
pub(crate) fn deposit(bucket: &Arc<TpsBudget>) -> (r: Counted)
    ensures
        r.bucket() == **bucket,
{
    tower::retry::budget::Budget::deposit(&**bucket);
    Counted { bucket: bucket.clone() }
}

/// `TpsBudget::withdraw`: whether that bucket can pay for a retry, and does. That
/// depends on the time and on every earlier call, and nothing is said of it.
#[verifier::external_body]
pub(crate) fn withdraw(bucket: &Arc<TpsBudget>) -> (r: Asked)
    ensures
        r.bucket() == **bucket,
{
    Asked { paid: tower::retry::budget::Budget::withdraw(&**bucket), bucket: bucket.clone() }
}

} // verus!

# courier

Client-side request policy for HTTP, verified with Verus: which requests are
retried and when, what is logged of them, how they pass through middleware, and
which URLs they may be sent to.

- `src/retry/` decides what is retried. `builder.rs` puts a policy together,
  `policy.rs` makes the decision, and the other modules hold its parts:
  `classify.rs` (which outcomes), `scope.rs` (which requests), `backoff.rs` and
  `retry_after.rs` (how long to wait, with `calendar.rs` for dates), and
  `budget.rs`, with `hosts.rs`, `bucket.rs` and `load.rs` (how many retries a
  host may be sent).
- `src/logging.rs` formats requests, responses and errors.
- `src/middleware.rs` passes a request along a chain of middleware.
- `src/into_url.rs` turns text into URLs.
- `src/message.rs`, `src/headers.rs`, `src/error.rs` and `src/time.rs` hold what
  the rest speaks of.
- `app/` is the client around the library: conversions to and from the `http`
  crate, futures, and printing.

Where the library calls the `http`, `url` or `tower` crate, or the parts of std
that read a clock or draw a random number, a comment says what is relied on.

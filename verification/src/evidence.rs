//! Where values from outside come from.
//!
//! What is said here of a value is known, in every other module, only of what the
//! clock or the random number generator has just given. No other value can take
//! the place of such a one: nothing there shows this of it.

use vstd::prelude::*;

verus! {

/// Whether `now` is a reading of the monotonic clock.
pub closed spec fn is_reading(now: std::time::Instant) -> bool {
    true
}

/// Whether `now` is a reading of the wall clock.
pub closed spec fn is_wall_reading(now: std::time::SystemTime) -> bool {
    true
}

/// Whether `word` was drawn at random.
pub closed spec fn is_drawn(word: u64) -> bool {
    true
}

} // verus!

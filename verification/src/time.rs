//! Spans of time, and readings of the clocks.

use crate::evidence;
use vstd::prelude::*;

verus! {

/// Nanoseconds in one second.
pub const NANOS_PER_SEC: u128 = 1_000_000_000;

/// Nanoseconds in the longest span: `u64::MAX` seconds and 999,999,999
/// nanoseconds.
pub const MAX_NANOS: u128 = 18_446_744_073_709_551_615_999_999_999;

/// A span of time, to the nanosecond, of at most `u64::MAX` whole seconds.
///
/// Its view is the number of nanoseconds.
#[derive(Clone, Copy, Debug, PartialEq, Eq, PartialOrd, Ord, Structural)]
pub struct Duration {
    nanos: u128,
}

impl View for Duration {
    type V = nat;

    closed spec fn view(&self) -> nat {
        self.nanos as nat
    }
}

impl Duration {
    #[verifier::type_invariant]
    spec fn in_range(self) -> bool {
        self.nanos <= MAX_NANOS
    }

    /// No time at all.
    pub fn zero() -> (r: Duration)
        ensures
            r@ == 0,
    {
        Duration { nanos: 0 }
    }

    /// `secs` whole seconds.
    pub fn from_secs(secs: u64) -> (r: Duration)
        ensures
            r@ == secs * NANOS_PER_SEC,
    {
        Duration { nanos: secs as u128 * NANOS_PER_SEC }
    }

    /// `millis` milliseconds.
    pub fn from_millis(millis: u64) -> (r: Duration)
        ensures
            r@ == millis * 1_000_000,
    {
        Duration { nanos: millis as u128 * 1_000_000 }
    }

    /// `nanos` nanoseconds, or the longest span if that is less.
    pub fn saturating_from_nanos(nanos: u128) -> (r: Duration)
        ensures
            r@ == if nanos <= MAX_NANOS {
                nanos
            } else {
                MAX_NANOS
            },
    {
        if nanos <= MAX_NANOS {
            Duration { nanos }
        } else {
            Duration { nanos: MAX_NANOS }
        }
    }

    /// The number of nanoseconds.
    pub fn as_nanos(&self) -> (r: u128)
        ensures
            r == self@,
            r <= MAX_NANOS,
    {
        proof {
            use_type_invariant(self);
        }
        self.nanos
    }

    /// Whether no time passes in this span.
    pub fn is_zero(&self) -> (r: bool)
        ensures
            r == (self@ == 0),
    {
        self.nanos == 0
    }

    /// The span `factor` times as long, or the longest span if that is less.
    pub fn saturating_mul(self, factor: u32) -> (r: Duration)
        ensures
            r@ == if self@ * factor <= MAX_NANOS {
                self@ * factor
            } else {
                MAX_NANOS as int
            },
    {
        proof {
            use_type_invariant(&self);
        }
        assert(self.nanos * factor <= MAX_NANOS * 0xffff_ffff) by (nonlinear_arith)
            requires
                self.nanos <= MAX_NANOS,
                factor <= 0xffff_ffff,
        ;
        Duration::saturating_from_nanos(self.nanos * factor as u128)
    }

    /// The longer of two spans.
    pub fn longer(self, other: Duration) -> (r: Duration)
        ensures
            r@ == if self@ < other@ {
                other@
            } else {
                self@
            },
    {
        if self.nanos < other.nanos {
            other
        } else {
            self
        }
    }
}

/// A reading of the wall clock: nanoseconds after, or before, the start of
/// 1970.
#[derive(Clone, Copy, Debug)]
pub enum WallClock {
    /// So many nanoseconds have passed since the start of 1970.
    After(u128),
    /// So many nanoseconds are left until the start of 1970.
    Before(u128),
}

/// The nanoseconds from the reading `now` to the time `secs` seconds after the
/// start of 1970, or `None` if that time has passed.
pub open spec fn nanos_until(secs: nat, now: WallClock) -> Option<nat> {
    match now {
        WallClock::After(nanos) => if nanos <= secs * NANOS_PER_SEC {
            Some((secs * NANOS_PER_SEC - nanos) as nat)
        } else {
            None
        },
        WallClock::Before(nanos) => if secs * NANOS_PER_SEC + nanos <= MAX_NANOS {
            Some((secs * NANOS_PER_SEC + nanos) as nat)
        } else {
            Some(MAX_NANOS as nat)
        },
    }
}

/// A reading of the wall clock, as std keeps it.
#[verifier::external_type_specification]
#[verifier::external_body]
pub struct ExSystemTime(std::time::SystemTime);

/// `SystemTime::now`, a reading of the wall clock. The time is whatever the machine
/// says it is, and nothing else is promised of it.
#[verifier::external_body]
fn system_clock() -> (r: std::time::SystemTime)
    ensures
        evidence::is_wall_reading(r),
{
    std::time::SystemTime::now()
}

/// What `SystemTime::duration_since` gives for a reading of the wall clock and the
/// start of 1970.
pub uninterp spec fn distance_from_1970(time: std::time::SystemTime) -> WallClock;

/// `SystemTime::duration_since`, with the Unix epoch, in nanoseconds. There are no
/// more of them than in a span.
#[verifier::external_body]
fn since_1970(time: std::time::SystemTime) -> (r: WallClock)
    ensures
        r == distance_from_1970(time),
        match r {
            WallClock::After(nanos) => nanos <= MAX_NANOS,
            WallClock::Before(nanos) => nanos <= MAX_NANOS,
        },
{
    match time.duration_since(std::time::SystemTime::UNIX_EPOCH) {
        Ok(since) => WallClock::After(since.as_nanos()),
        Err(early) => WallClock::Before(early.duration().as_nanos()),
    }
}

/// Whether `now` is what the wall clock read.
pub open spec fn is_now(now: WallClock) -> bool {
    exists|time: std::time::SystemTime|
        evidence::is_wall_reading(time) && now == #[trigger] distance_from_1970(time)
}

/// What the wall clock reads.
pub(crate) fn wall_clock() -> (r: WallClock)
    ensures
        is_now(r),
        match r {
            WallClock::After(nanos) => nanos <= MAX_NANOS,
            WallClock::Before(nanos) => nanos <= MAX_NANOS,
        },
{
    since_1970(system_clock())
}

/// How long it is from the reading `now` to the time `secs` seconds after the
/// start of 1970, or `None` if that time has passed.
pub fn until(secs: u64, now: WallClock) -> (r: Option<Duration>)
    ensures
        r is Some <==> nanos_until(secs as nat, now) is Some,
        r is Some ==> r->0@ == nanos_until(secs as nat, now)->0,
{
    let at: u128 = secs as u128 * NANOS_PER_SEC;
    match now {
        WallClock::After(nanos) => if nanos <= at {
            Some(Duration::saturating_from_nanos(at - nanos))
        } else {
            None
        },
        WallClock::Before(nanos) => if nanos <= MAX_NANOS {
            Some(Duration::saturating_from_nanos(at + nanos))
        } else {
            Some(Duration::saturating_from_nanos(MAX_NANOS))
        },
    }
}

/// A reading of the monotonic clock.
#[verifier::external_type_specification]
#[verifier::external_body]
pub struct ExInstant(std::time::Instant);

/// A deadline for a request, kept among the request's extensions.
///
/// The retry policy uses this to avoid sleeping longer than the request has
/// left to live.
#[derive(Clone, Copy, Debug)]
pub struct Deadline(pub std::time::Instant);

/// `Instant::now`, a reading of the monotonic clock. The time is whatever the
/// machine says it is, and nothing else is promised of it.
#[verifier::external_body]
fn monotonic_clock() -> (r: std::time::Instant)
    ensures
        evidence::is_reading(r),
{
    std::time::Instant::now()
}

/// What `Instant::checked_duration_since` gives for two readings of the
/// monotonic clock: the nanoseconds from `earlier` to `later`, or `None` if
/// `earlier` is the later of the two.
pub uninterp spec fn nanos_between(
    earlier: std::time::Instant,
    later: std::time::Instant,
) -> Option<nat>;

/// `Instant::checked_duration_since`, on `later` and with `earlier`, in
/// nanoseconds. There are no more of them than in a span.
#[verifier::external_body]
fn checked_nanos_between(earlier: std::time::Instant, later: std::time::Instant) -> (r: Option<u128>)
    ensures
        r is Some <==> nanos_between(earlier, later) is Some,
        r is Some ==> r->0 == nanos_between(earlier, later)->0,
        r is Some ==> r->0 <= MAX_NANOS,
{
    later.checked_duration_since(earlier).map(|left| left.as_nanos())
}

impl Deadline {
    /// Whether `left` is how long the request has left to live, if the clock
    /// reads `now`: the time from then to the deadline, or `None` if the deadline
    /// has passed.
    pub open spec fn is_left_at(self, now: std::time::Instant, left: Option<Duration>) -> bool {
        &&& left is Some <==> nanos_between(now, self.0) is Some
        &&& left is Some ==> left->0@ == nanos_between(now, self.0)->0
    }

    /// Whether `time_left` may answer `left`: it is what is left at a reading of
    /// the clock.
    pub open spec fn may_have_left(self, left: Option<Duration>) -> bool {
        exists|now: std::time::Instant|
            evidence::is_reading(now) && #[trigger] self.is_left_at(now, left)
    }

    /// How long the request has left to live, if the clock reads `now`, or `None`
    /// if the deadline has passed.
    pub fn time_left_at(&self, now: std::time::Instant) -> (r: Option<Duration>)
        ensures
            self.is_left_at(now, r),
    {
        match checked_nanos_between(now, self.0) {
            Some(nanos) => Some(Duration::saturating_from_nanos(nanos)),
            None => None,
        }
    }

    /// How long the request has left to live, or `None` if the deadline has
    /// passed.
    pub fn time_left(&self) -> (r: Option<Duration>)
        ensures
            self.may_have_left(r),
    {
        let now: std::time::Instant = monotonic_clock();
        let left: Option<Duration> = self.time_left_at(now);
        assert(self.is_left_at(now, left));
        left
    }
}

/// Two spans of the same number of nanoseconds are the same span.
pub proof fn same_nanos_same_span(a: Duration, b: Duration)
    requires
        a@ == b@,
    ensures
        a == b,
{
}

/// The time until a date is the difference between the two, and there is none for a
/// date that has passed.
pub proof fn distances_are_differences(secs: nat, now: u128)
    ensures
        now <= secs * 1_000_000_000 ==> nanos_until(secs, WallClock::After(now)) == Some(
            (secs * 1_000_000_000 - now) as nat,
        ),
        now > secs * 1_000_000_000 ==> nanos_until(secs, WallClock::After(now)) is None,
        nanos_until(secs, WallClock::Before(now)) is Some,
        secs * 1_000_000_000 + now <= MAX_NANOS ==> nanos_until(secs, WallClock::Before(now))->0
            == secs * 1_000_000_000 + now,
{
}

} // verus!

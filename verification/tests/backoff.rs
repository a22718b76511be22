use courier::retry::backoff::{jitter, Backoff, NoSchedule, Schedule, ScheduleFn};
use courier::time::MAX_NANOS;
use courier::Duration;

fn exponential(base: Duration) -> Backoff<NoSchedule> {
    Backoff::Exponential(base)
}

#[test]
fn exponential_doubles_within_jitter() {
    let backoff = exponential(Duration::from_millis(100));
    for attempt in 0..5 {
        let expected = Duration::from_millis(100 << attempt);
        for _ in 0..100 {
            let delay = backoff.delay(attempt);
            assert!(
                delay >= Duration::from_millis((100 << attempt) / 2) && delay <= expected,
                "attempt {attempt}: {delay:?} outside [{:?}, {expected:?}]",
                Duration::from_millis((100 << attempt) / 2)
            );
        }
    }
}

#[test]
fn exponential_jitter_varies() {
    let backoff = exponential(Duration::from_secs(1));
    let first = backoff.delay(0);
    assert!(
        (0..100).any(|_| backoff.delay(0) != first),
        "jitter is constant"
    );
}

#[test]
fn zero_base_never_delays() {
    let backoff = exponential(Duration::zero());
    for attempt in 0..40 {
        assert_eq!(backoff.delay(attempt), Duration::zero());
    }
}

#[test]
fn huge_attempt_counts_dont_overflow() {
    let backoff = exponential(Duration::from_secs(1));
    for attempt in [30, 31, 32, 64, u32::MAX] {
        let _ = backoff.delay(attempt);
    }
}

#[test]
fn the_longest_base_is_no_overflow() {
    let longest = Duration::saturating_from_nanos(u128::MAX);
    assert_eq!(longest.as_nanos(), MAX_NANOS);
    let backoff = exponential(longest);
    assert_eq!(
        backoff.delay_with(u32::MAX, 0).as_nanos(),
        MAX_NANOS / 2
    );
    assert!(backoff.delay_with(u32::MAX, u64::MAX) <= longest);
    assert_eq!(longest.saturating_mul(2), longest);
}

#[test]
fn jitter_is_a_share_of_the_second_half() {
    let delay = Duration::from_secs(8);
    assert_eq!(jitter(delay, 0), Duration::from_secs(4));
    assert_eq!(jitter(delay, 1 << 63), Duration::from_secs(6));
    assert_eq!(jitter(delay, 1 << 62), Duration::from_secs(5));
    assert_eq!(jitter(delay, u64::MAX).as_nanos(), 7_999_999_999);
    assert_eq!(jitter(Duration::zero(), u64::MAX), Duration::zero());
}

#[test]
fn delays_double_until_the_limit() {
    let backoff = exponential(Duration::from_millis(100));
    assert_eq!(backoff.delay_with(0, 0), Duration::from_millis(50));
    assert_eq!(backoff.delay_with(1, 0), Duration::from_millis(100));
    assert_eq!(backoff.delay_with(3, 1 << 63), Duration::from_millis(600));
    assert_eq!(
        backoff.delay_with(20, 0),
        Duration::from_millis(50 << 20)
    );
    assert_eq!(backoff.delay_with(21, 0), backoff.delay_with(20, 0));
}

#[test]
fn schedules_go_without_jitter() {
    let backoff = Backoff::Fn(ScheduleFn::new(|attempt: u32| {
        Duration::from_secs(attempt as u64 * 10)
    }));
    for attempt in 0..4 {
        assert_eq!(
            backoff.delay(attempt),
            Duration::from_secs(attempt as u64 * 10)
        );
    }
    assert_eq!(NoSchedule.wait(3), Duration::zero());
}

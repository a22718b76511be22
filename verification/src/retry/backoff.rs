//! How long to wait between attempts.

use crate::evidence;
use crate::time;
use crate::time::Duration;
use vstd::prelude::*;

verus! {

/// The delay stops doubling here. Anything past this is longer than a request
/// lives anyway.
pub const MAX_DOUBLINGS: u32 = 20;

/// A schedule of waits, by the number of retries already made.
pub trait Schedule: Send + Sync + 'static {
    /// Whether `wait` may answer `delay` after `attempt` retries: anything, unless
    /// the implementation says more.
    open spec fn may_wait(&self, attempt: u32, delay: Duration) -> bool {
        true
    }

    /// How long to wait after `attempt` retries.
    fn wait(&self, attempt: u32) -> (r: Duration)
        ensures
            self.may_wait(attempt, r),
    ;
}

/// A schedule given by a function.
pub struct ScheduleFn<F: Fn(u32) -> Duration>(F);

impl<F: Fn(u32) -> Duration> ScheduleFn<F> {
    #[verifier::type_invariant]
    spec fn callable(self) -> bool {
        forall|attempt: u32| #[trigger] call_requires(self.0, (attempt,))
    }

    /// The function.
    pub closed spec fn func(self) -> F {
        self.0
    }

    /// The schedule that `func` gives.
    pub fn new(func: F) -> (r: Self)
        requires
            forall|attempt: u32| #[trigger] call_requires(func, (attempt,)),
        ensures
            r.func() == func,
    {
        ScheduleFn(func)
    }
}

impl<F: Fn(u32) -> Duration + Send + Sync + 'static> Schedule for ScheduleFn<F> {
    open spec fn may_wait(&self, attempt: u32, delay: Duration) -> bool {
        call_ensures(self.func(), (attempt,), delay)
    }

    fn wait(&self, attempt: u32) -> (r: Duration) {
        proof {
            use_type_invariant(self);
        }
        (self.0)(attempt)
    }
}

/// A schedule given by a function waits for what the function may return.
pub proof fn functions_set_the_wait<F: Fn(u32) -> Duration + Send + Sync + 'static>(
    schedule: ScheduleFn<F>,
    attempt: u32,
)
    ensures
        forall|delay: Duration|
            #![trigger schedule.may_wait(attempt, delay)]
            #![trigger call_ensures(schedule.func(), (attempt,), delay)]
            schedule.may_wait(attempt, delay) == call_ensures(schedule.func(), (attempt,), delay),
{
}

/// The schedule of a policy that was given none: no wait.
#[derive(Clone, Copy, Debug)]
pub struct NoSchedule;

impl Schedule for NoSchedule {
    open spec fn may_wait(&self, attempt: u32, delay: Duration) -> bool {
        delay@ == 0
    }

    fn wait(&self, attempt: u32) -> (r: Duration) {
        Duration::zero()
    }
}

/// How the wait before a retry comes about.
#[derive(Debug)]
pub enum Backoff<W> {
    /// Twice as long after each retry, starting from this base, with jitter.
    Exponential(Duration),
    /// By a schedule, without jitter.
    Fn(W),
}

/// The delay after `attempt` retries, before jitter: `base` nanoseconds,
/// doubled each time, but no more than the longest span.
pub open spec fn exponential(base: nat, attempt: u32) -> nat {
    let doublings: nat = if attempt < MAX_DOUBLINGS {
        attempt as nat
    } else {
        MAX_DOUBLINGS as nat
    };
    if base * vstd::arithmetic::power2::pow2(doublings) <= time::MAX_NANOS {
        base * vstd::arithmetic::power2::pow2(doublings)
    } else {
        time::MAX_NANOS as nat
    }
}

/// The number of random words.
pub const RANDOM_WORDS: u128 = 0x1_0000_0000_0000_0000;

/// `delay` nanoseconds with the second half cut short, to the share that
/// `random` has of all random words.
pub open spec fn jittered(delay: nat, random: u64) -> nat {
    delay / 2 + (delay / 2) * random as nat / RANDOM_WORDS as nat
}

/// A random word, from the keys that `RandomState::new` draws. Nothing else is
/// promised of it.
#[verifier::external_body]
fn fast_random() -> (r: u64)
    ensures
        evidence::is_drawn(r),
{
    std::hash::BuildHasher::hash_one(&std::collections::hash_map::RandomState::new(), 0u8)
}

/// Multiplying by a word and dividing by the number of words, in parts that
/// each fit.
proof fn lemma_share(whole: nat, hi: nat, lo: nat, random: nat)
    requires
        whole == hi * RANDOM_WORDS + lo,
        lo < RANDOM_WORDS,
        random < RANDOM_WORDS,
    ensures
        whole * random / RANDOM_WORDS as nat == hi * random + lo * random / RANDOM_WORDS as nat,
        (whole * random / RANDOM_WORDS as nat) <= whole,
        whole > 0 ==> (whole * random / RANDOM_WORDS as nat) < whole,
{
    let words = RANDOM_WORDS as int;
    let product = (whole * random) as int;
    let part = (lo * random) as int;
    let quotient = product / words;
    assert(product == (hi * random) * words + part) by (nonlinear_arith)
        requires
            product == whole * random,
            part == lo * random,
            whole == hi * words + lo,
    ;
    vstd::arithmetic::div_mod::lemma_fundamental_div_mod(part, words);
    vstd::arithmetic::div_mod::lemma_fundamental_div_mod_converse(
        product,
        words,
        hi * random + part / words,
        part % words,
    );
    vstd::arithmetic::div_mod::lemma_fundamental_div_mod(product, words);
    assert(product <= whole * words && (whole > 0 ==> product < whole * words)) by (nonlinear_arith)
        requires
            product == whole * random,
            random < words,
    ;
    assert(quotient <= whole && (whole > 0 ==> quotient < whole)) by (nonlinear_arith)
        requires
            words * quotient <= product,
            product <= whole * words,
            (whole > 0 ==> product < whole * words),
            words > 0,
    ;
}

/// Spread the delay over the second half of the interval, so that clients that
/// all failed at the same moment don't all come back at the same moment.
pub fn jitter(delay: Duration, random: u64) -> (r: Duration)
    ensures
        r@ == jittered(delay@, random),
{
    let half: u128 = delay.as_nanos() / 2;
    let hi: u128 = half / RANDOM_WORDS;
    let lo: u128 = half % RANDOM_WORDS;
    proof {
        assert(half == RANDOM_WORDS * hi + lo);
        lemma_share(half as nat, hi as nat, lo as nat, random as nat);
        assert(lo * random < RANDOM_WORDS * RANDOM_WORDS) by (nonlinear_arith)
            requires
                lo < RANDOM_WORDS,
                random < RANDOM_WORDS,
        ;
        assert(hi * random <= half);
    }
    let extra: u128 = hi * random as u128 + lo * random as u128 / RANDOM_WORDS;
    Duration::saturating_from_nanos(half + extra)
}

impl<W> Backoff<W> {
    /// Whether this backoff may wait `delay` after `attempt` retries.
    pub open spec fn may_delay(self, attempt: u32, delay: Duration) -> bool where W: Schedule {
        match self {
            Backoff::Exponential(base) => exists|random: u64|
                evidence::is_drawn(random) && delay@ == #[trigger] jittered(
                    exponential(base@, attempt),
                    random,
                ),
            Backoff::Fn(schedule) => schedule.may_wait(attempt, delay),
        }
    }
}

impl<W: Schedule> Backoff<W> {
    /// How long to wait after `attempt` retries, if the random word is `random`.
    pub fn delay_with(&self, attempt: u32, random: u64) -> (r: Duration)
        ensures
            match *self {
                Backoff::Exponential(base) => r@ == jittered(exponential(base@, attempt), random),
                Backoff::Fn(schedule) => schedule.may_wait(attempt, r),
            },
    {
        match self {
            Backoff::Exponential(base) => {
                if base.is_zero() {
                    proof {
                        zero_base_never_waits(attempt, random);
                    }
                    return Duration::zero();
                }
                let doublings: u32 = if attempt < MAX_DOUBLINGS {
                    attempt
                } else {
                    MAX_DOUBLINGS
                };
                proof {
                    vstd::arithmetic::power2::lemma2_to64();
                    vstd::arithmetic::power2::lemma_pow2_strictly_increases(doublings as nat, 21);
                    vstd::bits::lemma_u32_shl_is_mul(1, doublings);
                }
                let factor: u32 = 1u32 << doublings;
                jitter(base.saturating_mul(factor), random)
            },
            Backoff::Fn(schedule) => schedule.wait(attempt),
        }
    }

    /// How long to wait after `attempt` retries.
    pub fn delay(&self, attempt: u32) -> (r: Duration)
        ensures
            self.may_delay(attempt, r),
    {
        self.delay_with(attempt, fast_random())
    }
}

/// Jitter leaves at least half of a delay, and never lengthens it.
pub proof fn jitter_keeps_half(delay: nat, random: u64)
    ensures
        delay / 2 <= jittered(delay, random) <= delay,
{
    let half = delay / 2;
    lemma_share(
        half,
        (half as int / RANDOM_WORDS as int) as nat,
        (half as int % RANDOM_WORDS as int) as nat,
        random as nat,
    );
}

/// A larger random word never makes for a shorter delay, and the smallest makes
/// for half of it.
pub proof fn jitter_grows_with_the_word(delay: nat, less: u64, more: u64)
    requires
        less <= more,
    ensures
        jittered(delay, 0) == delay / 2,
        jittered(delay, less) <= jittered(delay, more),
{
    let half = delay / 2;
    assert(half * less <= half * more) by (nonlinear_arith)
        requires
            less <= more,
    ;
    vstd::arithmetic::div_mod::lemma_div_is_ordered(
        half * less,
        half * more,
        RANDOM_WORDS as int,
    );
}

/// The first retry waits for the base, each one after it for twice as long as
/// the one before, until the doublings or the longest span end it.
pub proof fn exponential_doubles(base: nat, attempt: u32)
    requires
        base <= time::MAX_NANOS,
    ensures
        exponential(base, 0) == base,
        attempt < MAX_DOUBLINGS ==> exponential(base, (attempt + 1) as u32) == if 2 * exponential(
            base,
            attempt,
        ) <= time::MAX_NANOS {
            2 * exponential(base, attempt)
        } else {
            time::MAX_NANOS as nat
        },
        attempt >= MAX_DOUBLINGS ==> exponential(base, attempt) == exponential(
            base,
            MAX_DOUBLINGS,
        ),
{
    vstd::arithmetic::power2::lemma2_to64();
    vstd::arithmetic::mul::lemma_mul_basics(base as int);
    if attempt < MAX_DOUBLINGS {
        vstd::arithmetic::power2::lemma_pow2_unfold((attempt + 1) as nat);
        let power = vstd::arithmetic::power2::pow2(attempt as nat);
        assert(base * (2 * power) == 2 * (base * power)) by (nonlinear_arith);
    }
}

/// A base of zero never waits.
pub proof fn zero_base_never_waits(attempt: u32, random: u64)
    ensures
        jittered(exponential(0, attempt), random) == 0,
{
    let doublings: nat = if attempt < MAX_DOUBLINGS {
        attempt as nat
    } else {
        MAX_DOUBLINGS as nat
    };
    vstd::arithmetic::mul::lemma_mul_basics(vstd::arithmetic::power2::pow2(doublings) as int);
    vstd::arithmetic::mul::lemma_mul_basics(random as int);
}

/// Every wait of an exponential backoff lies in the second half of the
/// delay without jitter.
pub proof fn exponential_waits_within_jitter<W: Schedule>(
    base: Duration,
    attempt: u32,
    delay: Duration,
)
    requires
        Backoff::<W>::Exponential(base).may_delay(attempt, delay),
    ensures
        exponential(base@, attempt) / 2 <= delay@ <= exponential(base@, attempt),
{
    let random = choose|random: u64|
        delay@ == #[trigger] jittered(exponential(base@, attempt), random);
    jitter_keeps_half(exponential(base@, attempt), random);
}

/// What jitter adds to half of a delay is the share of that half that the random word
/// has of all words: the largest whole number of nanoseconds that is no more.
pub proof fn jitter_adds_a_share(delay: nat, random: u64)
    ensures
        ({
            let half = delay as int / 2;
            let extra = jittered(delay, random) - half;
            &&& extra * 0x1_0000_0000_0000_0000 <= half * random
            &&& half * random < (extra + 1) * 0x1_0000_0000_0000_0000
        }),
{
    let half = (delay / 2) as int;
    let words = 0x1_0000_0000_0000_0000int;
    vstd::arithmetic::div_mod::lemma_fundamental_div_mod(half * random, words);
}

/// An exponential backoff waits for a jittered delay, by a word that was drawn at
/// random.
pub proof fn exponential_waits_are_drawn<W: Schedule>(
    base: Duration,
    attempt: u32,
    delay: Duration,
)
    requires
        Backoff::<W>::Exponential(base).may_delay(attempt, delay),
    ensures
        exists|random: u64|
            evidence::is_drawn(random) && delay@ == #[trigger] jittered(
                exponential(base@, attempt),
                random,
            ),
{
}

/// The delay without jitter is the base, doubled once for each retry up to the
/// twentieth, but no more than the longest span.
pub proof fn exponential_is_the_doubled_base(base: nat, attempt: u32)
    ensures
        ({
            let doublings: nat = if attempt < 20 {
                attempt as nat
            } else {
                20
            };
            let doubled = base * vstd::arithmetic::power2::pow2(doublings);
            &&& doubled <= 18_446_744_073_709_551_615_999_999_999 ==> exponential(base, attempt)
                == doubled
            &&& doubled > 18_446_744_073_709_551_615_999_999_999 ==> exponential(base, attempt)
                == 18_446_744_073_709_551_615_999_999_999
        }),
{
}

} // verus!

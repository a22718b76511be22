//! How much extra load a budget allows.

use vstd::prelude::*;

verus! {

/// The largest extra load: so many retries for each request.
pub const MAX_LOAD: u32 = 1_000;

/// How many retries are allowed for each request, as a decimal fraction from zero
/// to [`MAX_LOAD`].
///
/// Its view is the digits, as one number, and how many of them are decimal
/// places.
#[derive(Clone, Copy, Debug, PartialEq, Eq, Structural)]
pub struct ExtraLoad {
    digits: u32,
    places: u32,
}

impl View for ExtraLoad {
    type V = (nat, nat);

    closed spec fn view(&self) -> (nat, nat) {
        (self.digits as nat, self.places as nat)
    }
}

/// Whether the fraction with those digits, of which so many are decimal places, is
/// at most [`MAX_LOAD`].
pub open spec fn in_range(digits: nat, places: nat) -> bool {
    digits <= MAX_LOAD * vstd::arithmetic::power::pow(10, places)
}

/// One decimal place more makes for ten times as much.
proof fn lemma_next_place(places: nat)
    ensures
        vstd::arithmetic::power::pow(10, places + 1) == 10 * vstd::arithmetic::power::pow(
            10,
            places,
        ),
        vstd::arithmetic::power::pow(10, 0) == 1,
        vstd::arithmetic::power::pow(10, places) >= 1,
{
    vstd::arithmetic::power::lemma_pow0(10);
    vstd::arithmetic::power::lemma_pow_adds(10, 1, places);
    vstd::arithmetic::power::lemma_pow1(10);
    vstd::arithmetic::power::lemma_pow_positive(10, places);
}

/// More decimal places never make for less.
proof fn lemma_places_grow(places: nat, more: nat)
    requires
        places <= more,
    ensures
        vstd::arithmetic::power::pow(10, places) <= vstd::arithmetic::power::pow(10, more),
    decreases more,
{
    if places < more {
        lemma_places_grow(places, (more - 1) as nat);
        lemma_next_place((more - 1) as nat);
    }
}

impl ExtraLoad {
    #[verifier::type_invariant]
    spec fn bounded(self) -> bool {
        in_range(self.digits as nat, self.places as nat)
    }

    /// The fraction with those digits, of which so many are decimal places, unless
    /// it is too large: 3 and 1 stand for 0.3, and 25 and 1 for 2.5.
    pub fn new(digits: u32, places: u32) -> (r: Option<ExtraLoad>)
        ensures
            r is Some <==> in_range(digits as nat, places as nat),
            r is Some ==> r->0@ == (digits as nat, places as nat),
    {
        let mut limit: u64 = MAX_LOAD as u64;
        let mut counted: u32 = 0;
        proof {
            lemma_next_place(0);
        }
        while counted < places && limit < digits as u64
            invariant
                counted <= places,
                limit == MAX_LOAD * vstd::arithmetic::power::pow(10, counted as nat),
                limit <= 10 * u32::MAX,
            decreases places - counted,
        {
            proof {
                lemma_next_place(counted as nat);
            }
            limit = limit * 10;
            counted = counted + 1;
        }
        proof {
            lemma_places_grow(counted as nat, places as nat);
        }
        if digits as u64 <= limit {
            Some(ExtraLoad { digits, places })
        } else {
            None
        }
    }

    /// The load that is allowed by default: 20%.
    pub fn fifth() -> (r: ExtraLoad)
        ensures
            r@ == (2nat, 1nat),
    {
        proof {
            lemma_next_place(0);
        }
        ExtraLoad { digits: 2, places: 1 }
    }

    /// The digits.
    pub fn digits(&self) -> (r: u32)
        ensures
            r == self@.0,
            in_range(self@.0, self@.1),
    {
        proof {
            use_type_invariant(self);
        }
        self.digits
    }

    /// How many of the digits are decimal places.
    pub fn places(&self) -> (r: u32)
        ensures
            r == self@.1,
            in_range(self@.0, self@.1),
    {
        proof {
            use_type_invariant(self);
        }
        self.places
    }
}

/// A fraction is in range if it is at most a thousand.
pub proof fn loads_go_up_to_a_thousand(digits: nat, places: nat)
    ensures
        in_range(digits, places) <==> digits <= 1_000 * vstd::arithmetic::power::pow(10, places),
{
}

} // verus!

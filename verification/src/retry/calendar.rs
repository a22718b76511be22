//! The proleptic Gregorian calendar.

use vstd::prelude::*;

verus! {

/// Whether `year` has a 29th of February.
pub open spec fn is_leap(year: int) -> bool {
    year % 4 == 0 && (year % 100 != 0 || year % 400 == 0)
}

/// The number of days in `year`.
pub open spec fn year_length(year: int) -> int {
    if is_leap(year) {
        366
    } else {
        365
    }
}

/// Days from the first of January of year 0 to the first of January of `year`.
pub open spec fn days_to_year(year: int) -> int
    decreases
            if year >= 0 {
                year
            } else {
                -year
            },
{
    if year > 0 {
        days_to_year(year - 1) + year_length(year - 1)
    } else if year < 0 {
        days_to_year(year + 1) - year_length(year)
    } else {
        0
    }
}

/// The number of days in the month `month`, from 1 to 12, of `year`.
pub open spec fn month_length(year: int, month: int) -> int {
    if month == 2 {
        if is_leap(year) {
            29
        } else {
            28
        }
    } else if month == 4 || month == 6 || month == 9 || month == 11 {
        30
    } else {
        31
    }
}

/// Days from the first of January to the first of `month`, from 1 to 12, of
/// `year`.
pub open spec fn days_to_month(year: int, month: int) -> int
    decreases month,
{
    if month <= 1 {
        0
    } else {
        days_to_month(year, month - 1) + month_length(year, month - 1)
    }
}

/// Days from the first of January 1970 to the day that comes `day - 1` days
/// after the first of `month` in `year`.
pub open spec fn days_since_epoch(year: int, month: int, day: int) -> int {
    days_to_year(year) - days_to_year(1970) + days_to_month(year, month) + day - 1
}

/// The leap years from year 0 up to, and including, `year`, less one.
spec fn leap_years_after_zero(year: int) -> int {
    year / 4 - year / 100 + year / 400
}

proof fn lemma_leap_years_step(year: int)
    ensures
        leap_years_after_zero(year) == leap_years_after_zero(year - 1) + if is_leap(year) {
            1int
        } else {
            0int
        },
{
    assert(year / 4 == (year - 1) / 4 + if year % 4 == 0 {
        1int
    } else {
        0int
    });
    assert(year / 100 == (year - 1) / 100 + if year % 100 == 0 {
        1int
    } else {
        0int
    });
    assert(year / 400 == (year - 1) / 400 + if year % 400 == 0 {
        1int
    } else {
        0int
    });
    assert(year % 100 == 0 ==> year % 4 == 0);
    assert(year % 400 == 0 ==> year % 100 == 0);
}

/// From the first of January of year 0 to the last day of `year`.
proof fn lemma_days_through_year(year: int)
    ensures
        days_to_year(year) + year_length(year) == 365 * (year + 1) + leap_years_after_zero(year)
            + 1,
    decreases
            if year >= 0 {
                year
            } else {
                -year
            },
{
    if year > 0 {
        lemma_days_through_year(year - 1);
        lemma_leap_years_step(year);
    } else if year < 0 {
        lemma_days_through_year(year + 1);
        lemma_leap_years_step(year + 1);
    }
}

proof fn lemma_days_to_month(year: int, month: int)
    requires
        1 <= month <= 12,
    ensures
        days_to_month(year, month) == if month <= 2 {
            31 * (month - 1)
        } else {
            (153 * (month - 3) + 2) / 5 + 59 + if is_leap(year) {
                1int
            } else {
                0int
            }
        },
{
    reveal_with_fuel(days_to_month, 13);
}

/// Counting on by one year adds that year's length, for every year.
proof fn lemma_next_year(year: int)
    ensures
        days_to_year(year + 1) == days_to_year(year) + year_length(year),
{
}

/// Eras of 400 years have 146,097 days each.
proof fn lemma_civil(year: int, era: int, year_of_era: int)
    requires
        year == 400 * era + year_of_era,
        0 <= year_of_era < 400,
    ensures
        days_to_year(year) + year_length(year) == 146_097 * era + 365 * (year_of_era + 1)
            + year_of_era / 4 - year_of_era / 100 + 1,
{
    lemma_days_through_year(year);
    assert(year / 4 == 100 * era + year_of_era / 4);
    assert(year / 100 == 4 * era + year_of_era / 100);
    assert(year / 400 == era);
}

/// Days since 1970-01-01, from a proleptic Gregorian date.
///
/// Years are counted from March, so that the leap day ends a year, and in eras
/// of 400 years, which all have the same number of days.
pub fn days_from_civil(y: i64, m: i64, d: i64) -> (r: i64)
    requires
        -25_000_000_000_000_000 <= y <= 25_000_000_000_000_000,
        1 <= m <= 12,
        -40_000_000_000_000_000 <= d <= 40_000_000_000_000_000,
    ensures
        r == days_since_epoch(y as int, m as int, d as int),
{
    let shifted: i64 = if m <= 2 {
        y - 1
    } else {
        y
    };
    let era: i64 = if shifted >= 0 {
        shifted / 400
    } else {
        -((399 - shifted) / 400)
    };
    let yoe: i64 = shifted - era * 400;
    let mp: i64 = (m + 9) % 12;
    let doy: i64 = (153 * mp + 2) / 5 + d - 1;
    let doe: i64 = yoe * 365 + yoe / 4 - yoe / 100 + doy;
    proof {
        lemma_civil(shifted as int, era as int, yoe as int);
        if m <= 2 {
            assert(days_to_year(y as int) == days_to_year(shifted as int) + year_length(
                shifted as int,
            )) by {
                lemma_next_year(shifted as int);
            }
        }
        lemma_days_to_month(y as int, m as int);
        assert(days_to_year(1970) == 719_528) by {
            lemma_days_through_year(1970);
        }
    }
    era * 146_097 + doe - 719_468
}

/// Dates of four-digit years lie within four million days of 1970.
pub proof fn lemma_days_bound(year: int, month: int, day: int)
    requires
        0 <= year <= 9_999,
        1 <= month <= 12,
        0 <= day <= 31,
    ensures
        -4_000_000 <= days_since_epoch(year, month, day) <= 4_000_000,
{
    lemma_days_through_year(year);
    lemma_days_through_year(1970);
    lemma_days_to_month(year, month);
}

/// Days are counted from the first of January 1970.
pub proof fn epoch_is_day_zero()
    ensures
        days_since_epoch(1970, 1, 1) == 0,
{
}

/// The day after any date is numbered one more than it: within a month, from
/// the end of one month to the start of the next, and from the end of one year
/// to the start of the next.
pub proof fn next_day_is_one_more(year: int, month: int, day: int)
    requires
        1 <= month <= 12,
        1 <= day <= month_length(year, month),
    ensures
        days_since_epoch(year, month, day) + 1 == if day < month_length(year, month) {
            days_since_epoch(year, month, day + 1)
        } else if month < 12 {
            days_since_epoch(year, month + 1, 1)
        } else {
            days_since_epoch(year + 1, 1, 1)
        },
{
    lemma_next_year(year);
    lemma_days_to_month(year, 12);
}

/// The date of the day after, as year, month and day of the month.
pub open spec fn next_date(date: (int, int, int)) -> (int, int, int) {
    let (year, month, day) = date;
    if day < month_length(year, month) {
        (year, month, day + 1)
    } else if month < 12 {
        (year, month + 1, 1)
    } else {
        (year + 1, 1, 1)
    }
}

/// The date `days` days after the first of January 1970, as year, month and day
/// of the month.
pub open spec fn date_of(days: nat) -> (int, int, int)
    decreases days,
{
    if days == 0 {
        (1970, 1, 1)
    } else {
        next_date(date_of((days - 1) as nat))
    }
}

/// A later year starts no earlier.
proof fn lemma_years_in_order(year: int, later: int)
    requires
        0 <= year <= later,
    ensures
        days_to_year(year) <= days_to_year(later),
    decreases later,
{
    if year < later {
        lemma_years_in_order(year, later - 1);
    }
}

/// The date of a day is one that there is, and its number is that day's. The last
/// day of the year 9999 is day 2,932,896.
pub proof fn dates_are_numbered(days: nat)
    ensures
        ({
            let (year, month, day) = date_of(days);
            &&& year >= 1970
            &&& 1 <= month <= 12
            &&& 1 <= day <= month_length(year, month)
            &&& days_since_epoch(year, month, day) == days
            &&& days <= 2_932_896 ==> year <= 9_999
        }),
    decreases days,
{
    if days > 0 {
        let (year, month, day) = date_of((days - 1) as nat);
        dates_are_numbered((days - 1) as nat);
        next_day_is_one_more(year, month, day);
    }
    let (year, month, day) = date_of(days);
    lemma_days_to_month(year, month);
    if year > 9_999 {
        lemma_years_in_order(10_000, year);
        lemma_next_year(9_999);
        lemma_days_through_year(9_999);
        lemma_days_through_year(1970);
    }
}

proof fn lemma_leap(year: int)
    ensures
        is_leap(year) == (year % 400 == 0 || (year % 4 == 0 && year % 100 != 0)),
{
    assert(year % 400 == 0 ==> year % 4 == 0);
}

/// A year has 366 days if it is a multiple of 4 but not of 100, or of 400, and 365
/// if not.
pub proof fn years_have_their_lengths(year: int, day: int)
    ensures
        days_since_epoch(year + 1, 1, day) - days_since_epoch(year, 1, day) == if year % 400 == 0
            || (year % 4 == 0 && year % 100 != 0) {
            366int
        } else {
            365int
        },
{
    lemma_leap(year);
    lemma_next_year(year);
}

proof fn lemma_same_in_era(year: int)
    ensures
        is_leap(year + 400) == is_leap(year),
        leap_years_after_zero(year + 400) == leap_years_after_zero(year) + 97,
{
    assert((year + 400) % 4 == year % 4);
    assert((year + 400) % 100 == year % 100);
    assert((year + 400) % 400 == year % 400);
    assert((year + 400) / 4 == year / 4 + 100);
    assert((year + 400) / 100 == year / 100 + 4);
    assert((year + 400) / 400 == year / 400 + 1);
}

/// Every 400 years have 146,097 days.
pub proof fn eras_have_their_length(year: int, month: int, day: int)
    requires
        1 <= month <= 12,
    ensures
        days_since_epoch(year + 400, month, day) - days_since_epoch(year, month, day) == 146_097,
{
    lemma_same_in_era(year);
    assert(days_to_year(year + 400) - days_to_year(year) == 146_097) by {
        lemma_days_through_year(year);
        lemma_days_through_year(year + 400);
    }
    assert(days_to_month(year + 400, month) == days_to_month(year, month)) by {
        lemma_days_to_month(year, month);
        lemma_days_to_month(year + 400, month);
    }
}

/// From the first of a month to the first of the next there are 31 days, but for
/// four months with 30, and February with 28, or 29 in a leap year.
pub proof fn months_have_their_lengths(year: int, month: int)
    requires
        1 <= month < 12,
    ensures
        days_since_epoch(year, month + 1, 1) - days_since_epoch(year, month, 1) == if month == 2 {
            if year % 400 == 0 || (year % 4 == 0 && year % 100 != 0) {
                29int
            } else {
                28int
            }
        } else if month == 4 || month == 6 || month == 9 || month == 11 {
            30int
        } else {
            31int
        },
{
    lemma_leap(year);
    assert(days_to_month(year, month + 1) == days_to_month(year, month) + month_length(
        year,
        month,
    ));
}

/// The days of a month are numbered on from the first.
pub proof fn days_are_numbered_on(year: int, month: int, day: int)
    ensures
        days_since_epoch(year, month, day) == days_since_epoch(year, month, 1) + day - 1,
{
}

} // verus!

//! The `Retry-After` header.

use crate::evidence;
use crate::headers;
use crate::retry::calendar;
use crate::time;
use crate::time::{Duration, WallClock};
use vstd::prelude::*;
use vstd::slice::slice_subrange;

verus! {

/// `s` without the spaces and tabs that it starts with.
pub open spec fn trim_start(s: Seq<u8>) -> Seq<u8>
    decreases s.len(),
{
    if s.len() > 0 && (s[0] == 32 || s[0] == 9) {
        trim_start(s.drop_first())
    } else {
        s
    }
}

/// `s` without the spaces and tabs that it ends with.
pub open spec fn trim_end(s: Seq<u8>) -> Seq<u8>
    decreases s.len(),
{
    if s.len() > 0 && (s.last() == 32 || s.last() == 9) {
        trim_end(s.drop_last())
    } else {
        s
    }
}

/// Whether `b` is an ASCII digit.
pub open spec fn is_digit(b: u8) -> bool {
    '0' as u8 <= b && b <= '9' as u8
}

/// Whether `s` is one or more ASCII digits.
pub open spec fn is_number(s: Seq<u8>) -> bool {
    s.len() > 0 && forall|i: int| 0 <= i < s.len() ==> is_digit(#[trigger] s[i])
}

/// The number that the ASCII digits `s` write in decimal.
pub open spec fn number(s: Seq<u8>) -> nat
    decreases s.len(),
{
    if s.len() == 0 {
        0
    } else {
        number(s.drop_last()) * 10 + (s.last() - '0' as u8) as nat
    }
}

/// Whether `s` is a whole number of seconds, in digits alone, that fits in 64
/// bits.
pub open spec fn is_delay(s: Seq<u8>) -> bool {
    is_number(s) && number(s) <= u64::MAX
}

/// The English abbreviation of the day of the week, from Sunday as 0 to Saturday
/// as 6.
pub open spec fn day_name(weekday: int) -> (u8, u8, u8) {
    if weekday == 0 {
        ('S' as u8, 'u' as u8, 'n' as u8)
    } else if weekday == 1 {
        ('M' as u8, 'o' as u8, 'n' as u8)
    } else if weekday == 2 {
        ('T' as u8, 'u' as u8, 'e' as u8)
    } else if weekday == 3 {
        ('W' as u8, 'e' as u8, 'd' as u8)
    } else if weekday == 4 {
        ('T' as u8, 'h' as u8, 'u' as u8)
    } else if weekday == 5 {
        ('F' as u8, 'r' as u8, 'i' as u8)
    } else {
        ('S' as u8, 'a' as u8, 't' as u8)
    }
}

/// Whether `a`, `b`, `c` is the English abbreviation of a day of the week.
pub open spec fn is_day_name(a: u8, b: u8, c: u8) -> bool {
    exists|weekday: int| 0 <= weekday < 7 && #[trigger] day_name(weekday) == (a, b, c)
}

/// The number of the month whose English abbreviation is `a`, `b`, `c`.
pub open spec fn month_named(a: u8, b: u8, c: u8) -> Option<int> {
    if (a, b, c) == ('J' as u8, 'a' as u8, 'n' as u8) {
        Some(1)
    } else if (a, b, c) == ('F' as u8, 'e' as u8, 'b' as u8) {
        Some(2)
    } else if (a, b, c) == ('M' as u8, 'a' as u8, 'r' as u8) {
        Some(3)
    } else if (a, b, c) == ('A' as u8, 'p' as u8, 'r' as u8) {
        Some(4)
    } else if (a, b, c) == ('M' as u8, 'a' as u8, 'y' as u8) {
        Some(5)
    } else if (a, b, c) == ('J' as u8, 'u' as u8, 'n' as u8) {
        Some(6)
    } else if (a, b, c) == ('J' as u8, 'u' as u8, 'l' as u8) {
        Some(7)
    } else if (a, b, c) == ('A' as u8, 'u' as u8, 'g' as u8) {
        Some(8)
    } else if (a, b, c) == ('S' as u8, 'e' as u8, 'p' as u8) {
        Some(9)
    } else if (a, b, c) == ('O' as u8, 'c' as u8, 't' as u8) {
        Some(10)
    } else if (a, b, c) == ('N' as u8, 'o' as u8, 'v' as u8) {
        Some(11)
    } else if (a, b, c) == ('D' as u8, 'e' as u8, 'c' as u8) {
        Some(12)
    } else {
        None
    }
}

/// Whether `s` is an IMF-fixdate, `Sun, 06 Nov 1994 08:49:37 GMT`.
pub open spec fn is_date(s: Seq<u8>) -> bool {
    &&& s.len() == 29
    &&& is_day_name(s[0], s[1], s[2])
    &&& s[3] == ',' as u8 && s[4] == ' ' as u8
    &&& is_number(s.subrange(5, 7))
    &&& s[7] == ' ' as u8
    &&& month_named(s[8], s[9], s[10]) is Some
    &&& s[11] == ' ' as u8
    &&& is_number(s.subrange(12, 16))
    &&& s[16] == ' ' as u8
    &&& is_number(s.subrange(17, 19))
    &&& s[19] == ':' as u8
    &&& is_number(s.subrange(20, 22))
    &&& s[22] == ':' as u8
    &&& is_number(s.subrange(23, 25))
    &&& s[25] == ' ' as u8 && s[26] == 'G' as u8 && s[27] == 'M' as u8 && s[28] == 'T' as u8
    &&& 1 <= number(s.subrange(5, 7)) <= 31
    &&& number(s.subrange(17, 19)) <= 23
    &&& number(s.subrange(20, 22)) <= 59
    &&& number(s.subrange(23, 25)) <= 60
}

/// The time that the date `s` names, in seconds since the start of 1970.
pub open spec fn date_secs(s: Seq<u8>) -> int {
    calendar::days_since_epoch(
        number(s.subrange(12, 16)) as int,
        month_named(s[8], s[9], s[10])->0,
        number(s.subrange(5, 7)) as int,
    ) * 86_400 + number(s.subrange(17, 19)) * 3_600 + number(s.subrange(20, 22)) * 60 + number(
        s.subrange(23, 25),
    )
}

/// How many nanoseconds to wait, if the clock reads `now` and the header's value
/// is `value`: a number of seconds, or the time until a date yet to come.
pub open spec fn wait_named(value: Seq<u8>, now: WallClock) -> Option<nat> {
    let text = trim_end(trim_start(value));
    if !headers::is_visible(value) {
        None
    } else if is_delay(text) {
        Some(number(text) * time::NANOS_PER_SEC as nat)
    } else if is_date(text) && date_secs(text) >= 0 {
        time::nanos_until(date_secs(text) as nat, now)
    } else {
        None
    }
}

/// How many nanoseconds to wait, if the clock reads `now` and the header fields
/// are `fields`.
pub open spec fn wait_asked(fields: Seq<(Seq<char>, Seq<u8>)>, now: WallClock) -> Option<nat> {
    match headers::first_value(fields, "retry-after"@) {
        Some(value) => wait_named(value, now),
        None => None,
    }
}

/// Whether `parse` may answer `r`: it is what the header fields ask for at a reading
/// of the clock.
pub open spec fn may_ask(fields: Seq<(Seq<char>, Seq<u8>)>, r: Option<Duration>) -> bool {
    exists|now: WallClock|
        {
            &&& time::is_now(now)
            &&& r is Some <==> (#[trigger] wait_asked(fields, now)) is Some
            &&& r is Some ==> r->0@ == wait_asked(fields, now)->0
        }
}

/// A digit more never makes the number less.
proof fn lemma_number_grows(s: Seq<u8>, i: int)
    requires
        0 <= i <= s.len(),
    ensures
        number(s.take(i)) <= number(s),
    decreases s.len(),
{
    if i < s.len() {
        assert(s.drop_last().take(i) =~= s.take(i));
        lemma_number_grows(s.drop_last(), i);
    } else {
        assert(s.take(i) =~= s);
    }
}

/// Digits in a row are less than the power of ten that has one digit more.
proof fn lemma_number_bound(s: Seq<u8>)
    ensures
        is_number(s) && s.len() == 2 ==> number(s) <= 99,
        is_number(s) && s.len() == 4 ==> number(s) <= 9_999,
{
    reveal_with_fuel(number, 5);
}

/// The number that `s` writes, if it is ASCII digits and fits.
fn digits(s: &[u8]) -> (r: Option<u64>)
    ensures
        r is Some <==> is_number(s@) && number(s@) <= u64::MAX,
        r is Some ==> r->0 == number(s@),
{
    if s.len() == 0 {
        return None;
    }
    let mut value: u64 = 0;
    for i in 0..s.len()
        invariant
            forall|j: int| 0 <= j < i ==> is_digit(#[trigger] s@[j]),
            value == number(s@.take(i as int)),
    {
        let b: u8 = s[i];
        if b < ('0' as u8) || b > '9' as u8 {
            assert(!is_digit(s@[i as int]));
            return None;
        }
        let digit: u64 = (b - '0' as u8) as u64;
        proof {
            assert(s@.take(i + 1).drop_last() =~= s@.take(i as int));
            lemma_number_grows(s@, i + 1);
        }
        if value > (u64::MAX - digit) / 10 {
            return None;
        }
        value = value * 10 + digit;
    }
    assert(s@.take(s@.len() as int) =~= s@);
    Some(value)
}

/// The number that `s` writes, if it is ASCII digits and fits.
pub fn num(s: &[u8]) -> (r: Option<i64>)
    ensures
        r is Some <==> is_number(s@) && number(s@) <= i64::MAX,
        r is Some ==> r->0 == number(s@),
{
    match digits(s) {
        Some(value) if value <= i64::MAX as u64 => Some(value as i64),
        _ => None,
    }
}

/// The number of the month whose English abbreviation is `a`, `b`, `c`.
fn month(a: u8, b: u8, c: u8) -> (r: Option<i64>)
    ensures
        r is Some <==> month_named(a, b, c) is Some,
        r is Some ==> r->0 == month_named(a, b, c)->0 && 1 <= r->0 <= 12,
{
    if a == 'J' as u8 && b == 'a' as u8 && c == 'n' as u8 {
        Some(1)
    } else if a == 'F' as u8 && b == 'e' as u8 && c == 'b' as u8 {
        Some(2)
    } else if a == 'M' as u8 && b == 'a' as u8 && c == 'r' as u8 {
        Some(3)
    } else if a == 'A' as u8 && b == 'p' as u8 && c == 'r' as u8 {
        Some(4)
    } else if a == 'M' as u8 && b == 'a' as u8 && c == 'y' as u8 {
        Some(5)
    } else if a == 'J' as u8 && b == 'u' as u8 && c == 'n' as u8 {
        Some(6)
    } else if a == 'J' as u8 && b == 'u' as u8 && c == 'l' as u8 {
        Some(7)
    } else if a == 'A' as u8 && b == 'u' as u8 && c == 'g' as u8 {
        Some(8)
    } else if a == 'S' as u8 && b == 'e' as u8 && c == 'p' as u8 {
        Some(9)
    } else if a == 'O' as u8 && b == 'c' as u8 && c == 't' as u8 {
        Some(10)
    } else if a == 'N' as u8 && b == 'o' as u8 && c == 'v' as u8 {
        Some(11)
    } else if a == 'D' as u8 && b == 'e' as u8 && c == 'c' as u8 {
        Some(12)
    } else {
        None
    }
}

/// Whether `a`, `b`, `c` is the English abbreviation of a day of the week.
fn weekday(a: u8, b: u8, c: u8) -> (r: bool)
    ensures
        r == is_day_name(a, b, c),
{
    assert(day_name(0) == ('S' as u8, 'u' as u8, 'n' as u8));
    assert(day_name(1) == ('M' as u8, 'o' as u8, 'n' as u8));
    assert(day_name(2) == ('T' as u8, 'u' as u8, 'e' as u8));
    assert(day_name(3) == ('W' as u8, 'e' as u8, 'd' as u8));
    assert(day_name(4) == ('T' as u8, 'h' as u8, 'u' as u8));
    assert(day_name(5) == ('F' as u8, 'r' as u8, 'i' as u8));
    assert(day_name(6) == ('S' as u8, 'a' as u8, 't' as u8));
    a == 'S' as u8 && b == 'u' as u8 && c == 'n' as u8 || a == 'M' as u8 && b == 'o' as u8 && c
        == 'n' as u8 || a == 'T' as u8 && b == 'u' as u8 && c == 'e' as u8 || a == 'W' as u8 && b
        == 'e' as u8 && c == 'd' as u8 || a == 'T' as u8 && b == 'h' as u8 && c == 'u' as u8 || a
        == 'F' as u8 && b == 'r' as u8 && c == 'i' as u8 || a == 'S' as u8 && b == 'a' as u8 && c
        == 't' as u8
}

/// Parse an IMF-fixdate, the format that servers send, into seconds since the
/// start of 1970.
///
/// `Sun, 06 Nov 1994 08:49:37 GMT`
///
/// A date before 1970 gives `None`.
pub fn http_date(s: &[u8]) -> (r: Option<u64>)
    ensures
        r is Some <==> is_date(s@) && date_secs(s@) >= 0,
        r is Some ==> r->0 == date_secs(s@),
{
    if s.len() != 29 || !weekday(s[0], s[1], s[2]) {
        return None;
    }
    if s[3] != ',' as u8 || s[4] != ' ' as u8 || s[7] != ' ' as u8 || s[11] != ' ' as u8 {
        return None;
    }
    if s[16] != ' ' as u8 || s[19] != ':' as u8 || s[22] != ':' as u8 {
        return None;
    }
    if s[25] != ' ' as u8 || s[26] != 'G' as u8 || s[27] != 'M' as u8 || s[28] != 'T' as u8 {
        return None;
    }
    proof {
        lemma_number_bound(s@.subrange(5, 7));
        lemma_number_bound(s@.subrange(12, 16));
        lemma_number_bound(s@.subrange(17, 19));
        lemma_number_bound(s@.subrange(20, 22));
        lemma_number_bound(s@.subrange(23, 25));
    }
    let day: i64 = match num(slice_subrange(s, 5, 7)) {
        Some(n) => n,
        None => return None,
    };
    let month: i64 = match month(s[8], s[9], s[10]) {
        Some(n) => n,
        None => return None,
    };
    let year: i64 = match num(slice_subrange(s, 12, 16)) {
        Some(n) => n,
        None => return None,
    };
    let hour: i64 = match num(slice_subrange(s, 17, 19)) {
        Some(n) => n,
        None => return None,
    };
    let min: i64 = match num(slice_subrange(s, 20, 22)) {
        Some(n) => n,
        None => return None,
    };
    let sec: i64 = match num(slice_subrange(s, 23, 25)) {
        Some(n) => n,
        None => return None,
    };
    if hour > 23 || min > 59 || sec > 60 || day == 0 || day > 31 {
        return None;
    }
    proof {
        calendar::lemma_days_bound(year as int, month as int, day as int);
    }
    let secs: i64 = calendar::days_from_civil(year, month, day) * 86_400 + hour * 3_600 + min * 60 + sec;
    if secs < 0 {
        None
    } else {
        Some(secs as u64)
    }
}

/// `s` without the spaces and tabs around it.
fn trim(s: &[u8]) -> (r: &[u8])
    ensures
        r@ == trim_end(trim_start(s@)),
{
    let mut start: usize = 0;
    assert(s@.skip(0) =~= s@);
    while start < s.len() && (s[start] == 32 || s[start] == 9)
        invariant
            start <= s@.len(),
            trim_start(s@) == trim_start(s@.skip(start as int)),
        decreases s@.len() - start,
    {
        assert(s@.skip(start as int).drop_first() =~= s@.skip(start + 1));
        start = start + 1;
    }
    assert(trim_start(s@) == s@.skip(start as int));
    let mut end: usize = s.len();
    assert(s@.skip(start as int) =~= s@.subrange(start as int, end as int));
    while start < end && (s[end - 1] == 32 || s[end - 1] == 9)
        invariant
            start <= end <= s@.len(),
            trim_end(trim_start(s@)) == trim_end(s@.subrange(start as int, end as int)),
        decreases end,
    {
        assert(s@.subrange(start as int, end as int).drop_last() =~= s@.subrange(
            start as int,
            end - 1,
        ));
        end = end - 1;
    }
    slice_subrange(s, start, end)
}

/// Parse a `Retry-After` header into how long to wait, if the clock reads
/// `now`.
///
/// Returns `None` if the header is absent, malformed, or names a time that has
/// already passed.
pub fn parse_at(headers: &http::HeaderMap, now: WallClock) -> (r: Option<Duration>)
    ensures
        r is Some <==> wait_asked(headers::header_fields(*headers), now) is Some,
        r is Some ==> r->0@ == wait_asked(headers::header_fields(*headers), now)->0,
{
    proof {
        reveal_strlit("retry-after");
    }
    let value: Vec<u8> = match headers::get(headers, "retry-after") {
        Some(value) => value,
        None => return None,
    };
    if headers::to_str(value.as_slice()).is_none() {
        return None;
    }
    let text: &[u8] = trim(value.as_slice());
    match digits(text) {
        Some(secs) => Some(Duration::from_secs(secs)),
        None => match http_date(text) {
            Some(secs) => time::until(secs, now),
            None => None,
        },
    }
}

/// Parse a `Retry-After` header into how long to wait from now.
///
/// Returns `None` if the header is absent, malformed, or names a time that has
/// already passed.
pub fn parse(headers: &http::HeaderMap) -> (r: Option<Duration>)
    ensures
        may_ask(headers::header_fields(*headers), r),
{
    let now: WallClock = time::wall_clock();
    parse_at(headers, now)
}

/// A number of seconds asks for that wait, whatever the time is.
pub proof fn seconds_ask_for_that_wait(value: Seq<u8>, now: WallClock)
    requires
        headers::is_visible(value),
        is_delay(trim_end(trim_start(value))),
    ensures
        wait_named(value, now) == Some(
            number(trim_end(trim_start(value))) * time::NANOS_PER_SEC as nat,
        ),
{
}

/// A date that has passed asks for no wait, and one yet to come asks for the
/// time that is left until then.
pub proof fn dates_ask_for_the_time_left(value: Seq<u8>, now: u128)
    requires
        headers::is_visible(value),
        !is_delay(trim_end(trim_start(value))),
        is_date(trim_end(trim_start(value))),
        date_secs(trim_end(trim_start(value))) >= 0,
    ensures
        ({
            let at = date_secs(trim_end(trim_start(value))) * time::NANOS_PER_SEC;
            &&& at < now ==> wait_named(value, WallClock::After(now)) is None
            &&& now <= at ==> wait_named(value, WallClock::After(now)) == Some((at - now) as nat)
        }),
{
}

/// The English abbreviation of the month, from 1 to 12.
pub open spec fn month_name(month: int) -> (u8, u8, u8) {
    if month == 1 {
        ('J' as u8, 'a' as u8, 'n' as u8)
    } else if month == 2 {
        ('F' as u8, 'e' as u8, 'b' as u8)
    } else if month == 3 {
        ('M' as u8, 'a' as u8, 'r' as u8)
    } else if month == 4 {
        ('A' as u8, 'p' as u8, 'r' as u8)
    } else if month == 5 {
        ('M' as u8, 'a' as u8, 'y' as u8)
    } else if month == 6 {
        ('J' as u8, 'u' as u8, 'n' as u8)
    } else if month == 7 {
        ('J' as u8, 'u' as u8, 'l' as u8)
    } else if month == 8 {
        ('A' as u8, 'u' as u8, 'g' as u8)
    } else if month == 9 {
        ('S' as u8, 'e' as u8, 'p' as u8)
    } else if month == 10 {
        ('O' as u8, 'c' as u8, 't' as u8)
    } else if month == 11 {
        ('N' as u8, 'o' as u8, 'v' as u8)
    } else {
        ('D' as u8, 'e' as u8, 'c' as u8)
    }
}

/// The last decimal digit of `n`.
pub open spec fn last_digit(n: int) -> u8 {
    ('0' as u8 + n % 10) as u8
}

/// The IMF-fixdate of a day and a time of day, with the day of the week from
/// Sunday as 0.
#[verifier::opaque]
pub open spec fn date_text(
    weekday: int,
    date: (int, int, int),
    hour: int,
    min: int,
    sec: int,
) -> Seq<u8> {
    let (year, month, day) = date;
    seq![
        day_name(weekday).0,
        day_name(weekday).1,
        day_name(weekday).2,
        ',' as u8,
        ' ' as u8,
        last_digit(day / 10),
        last_digit(day),
        ' ' as u8,
        month_name(month).0,
        month_name(month).1,
        month_name(month).2,
        ' ' as u8,
        last_digit(year / 1_000),
        last_digit(year / 100),
        last_digit(year / 10),
        last_digit(year),
        ' ' as u8,
        last_digit(hour / 10),
        last_digit(hour),
        ':' as u8,
        last_digit(min / 10),
        last_digit(min),
        ':' as u8,
        last_digit(sec / 10),
        last_digit(sec),
        ' ' as u8,
        'G' as u8,
        'M' as u8,
        'T' as u8,
    ]
}

/// The IMF-fixdate of the time `secs` seconds after the start of 1970, up to the
/// year 9999. The first day of 1970 was a Thursday.
pub open spec fn fixdate(secs: nat) -> Seq<u8> {
    let days = secs / 86_400;
    let of_day = secs as int % 86_400;
    date_text(
        (days + 4) as int % 7,
        calendar::date_of(days),
        of_day / 3_600,
        of_day / 60 % 60,
        of_day % 60,
    )
}

/// Two digits write a number below a hundred.
proof fn lemma_two_digits(s: Seq<u8>, n: int)
    requires
        0 <= n < 100,
        s == seq![last_digit(n / 10), last_digit(n)],
    ensures
        is_number(s),
        number(s) == n,
{
    reveal_with_fuel(number, 3);
    assert(s.drop_last() =~= seq![last_digit(n / 10)]);
    assert(s.drop_last().drop_last() =~= Seq::empty());
}

/// Four digits write a number below ten thousand.
proof fn lemma_four_digits(s: Seq<u8>, n: int)
    requires
        0 <= n < 10_000,
        s == seq![
            last_digit(n / 1_000),
            last_digit(n / 100),
            last_digit(n / 10),
            last_digit(n),
        ],
    ensures
        is_number(s),
        number(s) == n,
{
    reveal_with_fuel(number, 3);
    let hundreds = s.drop_last().drop_last();
    assert(hundreds =~= seq![last_digit(n / 100 / 10), last_digit(n / 100)]);
    lemma_two_digits(hundreds, n / 100);
    assert(number(s.drop_last()) == number(hundreds) * 10 + n / 10 % 10);
    assert(number(s) == number(s.drop_last()) * 10 + n % 10);
}

proof fn lemma_month_name(month: int)
    requires
        1 <= month <= 12,
    ensures
        month_named(month_name(month).0, month_name(month).1, month_name(month).2) == Some(month),
{
}

/// A date that is written is read back field by field.
proof fn lemma_date_text(weekday: int, date: (int, int, int), hour: int, min: int, sec: int)
    requires
        0 <= weekday < 7,
        0 <= date.0 <= 9_999,
        1 <= date.1 <= 12,
        1 <= date.2 <= 31,
        0 <= hour < 24,
        0 <= min < 60,
        0 <= sec <= 60,
    ensures
        is_date(date_text(weekday, date, hour, min, sec)),
        date_secs(date_text(weekday, date, hour, min, sec)) == calendar::days_since_epoch(
            date.0,
            date.1,
            date.2,
        ) * 86_400 + hour * 3_600 + min * 60 + sec,
{
    reveal(date_text);
    let s = date_text(weekday, date, hour, min, sec);
    let (year, month, day) = date;
    assert(day_name(weekday) == (s[0], s[1], s[2]));
    lemma_month_name(month);
    let at_day = s.subrange(5, 7);
    let at_year = s.subrange(12, 16);
    let at_hour = s.subrange(17, 19);
    let at_min = s.subrange(20, 22);
    let at_sec = s.subrange(23, 25);
    assert(at_day =~= seq![last_digit(day / 10), last_digit(day)]);
    assert(at_year =~= seq![
        last_digit(year / 1_000),
        last_digit(year / 100),
        last_digit(year / 10),
        last_digit(year),
    ]);
    assert(at_hour =~= seq![last_digit(hour / 10), last_digit(hour)]);
    assert(at_min =~= seq![last_digit(min / 10), last_digit(min)]);
    assert(at_sec =~= seq![last_digit(sec / 10), last_digit(sec)]);
    lemma_two_digits(at_day, day);
    lemma_four_digits(at_year, year);
    lemma_two_digits(at_hour, hour);
    lemma_two_digits(at_min, min);
    lemma_two_digits(at_sec, sec);
}

proof fn lemma_time_of_day(secs: int)
    requires
        0 <= secs < 86_400,
    ensures
        0 <= secs / 3_600 < 24,
        0 <= secs / 60 % 60 < 60,
        0 <= secs % 60 < 60,
        secs / 3_600 * 3_600 + secs / 60 % 60 * 60 + secs % 60 == secs,
{
}

/// Reading a date undoes writing it: the IMF-fixdate of any time from 1970 to the
/// end of 9999 is a date, and it names that time.
pub proof fn reading_a_date_undoes_writing_it(secs: nat)
    requires
        secs <= 253_402_300_799,
    ensures
        is_date(fixdate(secs)),
        date_secs(fixdate(secs)) == secs,
{
    let days = secs / 86_400;
    let of_day = secs as int % 86_400;
    let weekday = (days + 4) as int % 7;
    let date = calendar::date_of(days);
    let s = date_text(weekday, date, of_day / 3_600, of_day / 60 % 60, of_day % 60);
    lemma_time_of_day(of_day);
    assert(date.2 <= 31 && 0 <= date.0 <= 9_999 && 1 <= date.1 <= 12 && 1 <= date.2
        && calendar::days_since_epoch(date.0, date.1, date.2) == days) by {
        calendar::dates_are_numbered(days);
    }
    lemma_date_text(weekday, date, of_day / 3_600, of_day / 60 % 60, of_day % 60);
    assert(fixdate(secs) == s);
}

/// The number `n` in decimal.
pub open spec fn written(n: nat) -> Seq<u8>
    decreases n,
{
    if n < 10 {
        seq![last_digit(n as int)]
    } else {
        written(n / 10).push(last_digit(n as int))
    }
}

/// Whether every byte is a space or a tab.
pub open spec fn is_blank(s: Seq<u8>) -> bool {
    forall|i: int| 0 <= i < s.len() ==> (#[trigger] s[i] == 32 || s[i] == 9)
}

/// What is written in decimal is digits, and reads back.
proof fn lemma_written(n: nat)
    ensures
        is_number(written(n)),
        number(written(n)) == n,
    decreases n,
{
    reveal_with_fuel(number, 2);
    if n < 10 {
        assert(written(n).drop_last() =~= Seq::empty());
    } else {
        lemma_written(n / 10);
        assert(written(n).drop_last() =~= written(n / 10));
        assert forall|i: int| 0 <= i < written(n).len() implies is_digit(
            #[trigger] written(n)[i],
        ) by {
            if i < written(n / 10).len() {
                assert(is_digit(written(n / 10)[i]));
            }
        }
    }
}

/// Blanks before a text are trimmed, and nothing else is.
proof fn lemma_trim_start(before: Seq<u8>, rest: Seq<u8>)
    requires
        is_blank(before),
        rest.len() > 0,
        rest[0] != 32 && rest[0] != 9,
    ensures
        trim_start(before + rest) == rest,
    decreases before.len(),
{
    if before.len() == 0 {
        assert(before + rest =~= rest);
    } else {
        assert((before + rest)[0] == before[0]);
        assert((before + rest).drop_first() =~= before.drop_first() + rest);
        assert forall|i: int| 0 <= i < before.drop_first().len() implies (
        #[trigger] before.drop_first()[i] == 32 || before.drop_first()[i] == 9) by {
            assert(before.drop_first()[i] == before[i + 1]);
        }
        lemma_trim_start(before.drop_first(), rest);
    }
}

/// Blanks after a text are trimmed, and nothing else is.
proof fn lemma_trim_end(rest: Seq<u8>, after: Seq<u8>)
    requires
        is_blank(after),
        rest.len() > 0,
        rest.last() != 32 && rest.last() != 9,
    ensures
        trim_end(rest + after) == rest,
    decreases after.len(),
{
    if after.len() == 0 {
        assert(rest + after =~= rest);
    } else {
        assert((rest + after).last() == after.last());
        assert((rest + after).drop_last() =~= rest + after.drop_last());
        lemma_trim_end(rest, after.drop_last());
    }
}

/// What is between blanks is what is left after trimming.
proof fn lemma_trimmed(before: Seq<u8>, text: Seq<u8>, after: Seq<u8>)
    requires
        is_blank(before),
        is_blank(after),
        text.len() > 0,
        text[0] != 32 && text[0] != 9,
        text.last() != 32 && text.last() != 9,
    ensures
        trim_end(trim_start(before + text + after)) == text,
{
    assert(before + text + after =~= before + (text + after));
    lemma_trim_start(before, text + after);
    lemma_trim_end(text, after);
}

/// What is trimmed at the start is blanks.
proof fn lemma_trim_start_is_part(s: Seq<u8>) -> (a: int)
    ensures
        0 <= a <= s.len(),
        trim_start(s) == s.skip(a),
        is_blank(s.take(a)),
    decreases s.len(),
{
    if s.len() > 0 && (s[0] == 32 || s[0] == 9) {
        let rest = s.drop_first();
        let a = lemma_trim_start_is_part(rest);
        assert(rest.skip(a) =~= s.skip(a + 1));
        assert forall|i: int| 0 <= i < a + 1 implies (#[trigger] s.take(a + 1)[i] == 32 || s.take(
            a + 1,
        )[i] == 9) by {
            if i > 0 {
                assert(rest.take(a)[i - 1] == s[i]);
            }
        }
        a + 1
    } else {
        assert(s.skip(0) =~= s);
        0
    }
}

/// What is trimmed at the end is blanks.
proof fn lemma_trim_end_is_part(s: Seq<u8>) -> (b: int)
    ensures
        0 <= b <= s.len(),
        trim_end(s) == s.take(b),
        is_blank(s.skip(b)),
    decreases s.len(),
{
    if s.len() > 0 && (s.last() == 32 || s.last() == 9) {
        let rest = s.drop_last();
        let b = lemma_trim_end_is_part(rest);
        assert(rest.take(b) =~= s.take(b));
        assert forall|i: int| 0 <= i < s.skip(b).len() implies (#[trigger] s.skip(b)[i] == 32
            || s.skip(b)[i] == 9) by {
            if i < rest.skip(b).len() {
                assert(rest.skip(b)[i] == s[b + i]);
            }
        }
        b
    } else {
        assert(s.take(s.len() as int) =~= s);
        s.len() as int
    }
}

/// Any number of seconds that fits in 64 bits, written in decimal, with or without
/// blanks around it, asks for a wait of that many seconds, whatever the time is.
pub proof fn written_seconds_are_waited_for(
    n: nat,
    before: Seq<u8>,
    after: Seq<u8>,
    now: WallClock,
)
    requires
        n <= 0xffff_ffff_ffff_ffff,
        is_blank(before),
        is_blank(after),
    ensures
        wait_named(before + written(n) + after, now) == Some((n * 1_000_000_000) as nat),
{
    let text = written(n);
    let value = before + text + after;
    lemma_written(n);
    assert(is_digit(text[0]) && is_digit(text.last()));
    lemma_trimmed(before, text, after);
    assert forall|i: int| 0 <= i < value.len() implies (32 <= #[trigger] value[i] < 127 || value[i]
        == 9) by {
        if i < before.len() {
            assert(value[i] == before[i]);
        } else if i < before.len() + text.len() {
            assert(is_digit(text[i - before.len()]));
        } else {
            assert(value[i] == after[i - before.len() - text.len()]);
        }
    }
}

/// The bytes of a date that is written are visible, and it starts and ends with
/// letters. It is no number.
proof fn lemma_fixdate_bytes(secs: nat)
    ensures
        fixdate(secs).len() == 29,
        forall|i: int| 0 <= i < 29 ==> 32 <= #[trigger] fixdate(secs)[i] < 127,
        fixdate(secs)[0] != 32 && fixdate(secs)[0] != 9,
        fixdate(secs)[28] != 32 && fixdate(secs)[28] != 9,
        !is_number(fixdate(secs)),
{
    reveal(date_text);
    let s = fixdate(secs);
    assert(s[3] == ',' as u8);
    assert(!is_digit(s[3]));
}

/// The IMF-fixdate of any time from 1970 to the end of 9999, with or without blanks
/// around it, asks for the time that is left until then, if it has not passed.
pub proof fn written_dates_are_waited_for(
    secs: nat,
    before: Seq<u8>,
    after: Seq<u8>,
    now: WallClock,
)
    requires
        secs <= 253_402_300_799,
        is_blank(before),
        is_blank(after),
    ensures
        wait_named(before + fixdate(secs) + after, now) == match now {
            WallClock::After(nanos) => if nanos <= secs * 1_000_000_000 {
                Some((secs * 1_000_000_000 - nanos) as nat)
            } else {
                None
            },
            WallClock::Before(nanos) => if secs * 1_000_000_000 + nanos <= time::MAX_NANOS {
                Some((secs * 1_000_000_000 + nanos) as nat)
            } else {
                Some(time::MAX_NANOS as nat)
            },
        },
{
    let text = fixdate(secs);
    let value = before + text + after;
    lemma_fixdate_bytes(secs);
    reading_a_date_undoes_writing_it(secs);
    lemma_trimmed(before, text, after);
    assert forall|i: int| 0 <= i < value.len() implies (32 <= #[trigger] value[i] < 127 || value[i]
        == 9) by {
        if i < before.len() {
            assert(value[i] == before[i]);
        } else if i < before.len() + text.len() {
            assert(value[i] == text[i - before.len()]);
        } else {
            assert(value[i] == after[i - before.len() - text.len()]);
        }
    }
}

/// Whether `a`, `b`, `c` is the English abbreviation of a month.
pub open spec fn is_month_name(a: u8, b: u8, c: u8) -> bool {
    exists|month: int| 1 <= month <= 12 && #[trigger] month_name(month) == (a, b, c)
}

/// Two digits are read as tens and ones.
proof fn lemma_two_digits_read(s: Seq<u8>)
    requires
        is_number(s),
        s.len() == 2,
    ensures
        number(s) == 10 * (s[0] - 48) + (s[1] - 48),
{
    reveal_with_fuel(number, 3);
    assert(is_digit(s[0]) && is_digit(s[1]));
}

/// Only digits and IMF-fixdates, with or without blanks around them, ask for a
/// wait.
pub proof fn only_seconds_and_dates_are_waited_for(value: Seq<u8>, now: WallClock)
    requires
        wait_named(value, now) is Some,
    ensures
        exists|a: int, b: int|
            {
                let s = #[trigger] value.subrange(a, b);
                &&& 0 <= a <= b <= value.len()
                &&& is_blank(value.take(a))
                &&& is_blank(value.skip(b))
                &&& {
                    ||| s.len() > 0 && forall|i: int|
                        0 <= i < s.len() ==> 48 <= #[trigger] s[i] <= 57
                    ||| {
                        &&& s.len() == 29
                        &&& is_day_name(s[0], s[1], s[2])
                        &&& s[3] == 44 && s[4] == 32 && s[7] == 32 && s[11] == 32 && s[16] == 32
                        &&& s[19] == 58 && s[22] == 58 && s[25] == 32
                        &&& s[26] == 71 && s[27] == 77 && s[28] == 84
                        &&& 48 <= s[5] <= 57 && 48 <= s[6] <= 57
                        &&& 48 <= s[12] <= 57 && 48 <= s[13] <= 57
                        &&& 48 <= s[14] <= 57 && 48 <= s[15] <= 57
                        &&& 48 <= s[17] <= 57 && 48 <= s[18] <= 57
                        &&& 48 <= s[20] <= 57 && 48 <= s[21] <= 57
                        &&& 48 <= s[23] <= 57 && 48 <= s[24] <= 57
                        &&& is_month_name(s[8], s[9], s[10])
                        &&& 1 <= 10 * (s[5] - 48) + (s[6] - 48) <= 31
                        &&& 10 * (s[17] - 48) + (s[18] - 48) <= 23
                        &&& 10 * (s[20] - 48) + (s[21] - 48) <= 59
                        &&& 10 * (s[23] - 48) + (s[24] - 48) <= 60
                    }
                }
            },
{
    let a = lemma_trim_start_is_part(value);
    let started = value.skip(a);
    let n = lemma_trim_end_is_part(started);
    let b = a + n;
    let s = value.subrange(a, b);
    assert(s =~= trim_end(trim_start(value)));
    assert(value.skip(b) =~= started.skip(n));
    if is_number(s) {
        assert forall|i: int| 0 <= i < s.len() implies 48 <= #[trigger] s[i] <= 57 by {
            assert(is_digit(s[i]));
        }
    } else {
        lemma_two_digits_read(s.subrange(5, 7));
        lemma_two_digits_read(s.subrange(17, 19));
        lemma_two_digits_read(s.subrange(20, 22));
        lemma_two_digits_read(s.subrange(23, 25));
        assert(month_name(month_named(s[8], s[9], s[10])->0) == (s[8], s[9], s[10]));
        assert(is_digit(s.subrange(5, 7)[0]) && is_digit(s.subrange(5, 7)[1]));
        assert(is_digit(s.subrange(12, 16)[0]) && is_digit(s.subrange(12, 16)[1]));
        assert(is_digit(s.subrange(12, 16)[2]) && is_digit(s.subrange(12, 16)[3]));
        assert(is_digit(s.subrange(17, 19)[0]) && is_digit(s.subrange(17, 19)[1]));
        assert(is_digit(s.subrange(20, 22)[0]) && is_digit(s.subrange(20, 22)[1]));
        assert(is_digit(s.subrange(23, 25)[0]) && is_digit(s.subrange(23, 25)[1]));
    }
}

/// A header that names a date is compared with a reading that the wall clock gave:
/// if the date is later, the answer is the time between the two, and if it is
/// earlier, there is none.
pub proof fn dates_are_compared_with_the_clock(
    fields: Seq<(Seq<char>, Seq<u8>)>,
    secs: nat,
    r: Option<Duration>,
)
    requires
        secs <= 253_402_300_799,
        headers::first_value(fields, "retry-after"@) == Some(fixdate(secs)),
        may_ask(fields, r),
    ensures
        exists|time: std::time::SystemTime|
            {
                &&& evidence::is_wall_reading(time)
                &&& match #[trigger] time::distance_from_1970(time) {
                    WallClock::After(nanos) => if nanos <= secs * 1_000_000_000 {
                        r is Some && r->0@ == secs * 1_000_000_000 - nanos
                    } else {
                        r is None
                    },
                    WallClock::Before(nanos) => r is Some && r->0@ >= secs * 1_000_000_000,
                }
            },
{
    let now = choose|now: WallClock|
        {
            &&& time::is_now(now)
            &&& r is Some <==> (#[trigger] wait_asked(fields, now)) is Some
            &&& r is Some ==> r->0@ == wait_asked(fields, now)->0
        };
    let time = choose|time: std::time::SystemTime|
        evidence::is_wall_reading(time) && now == #[trigger] time::distance_from_1970(time);
    let none = Seq::<u8>::empty();
    written_dates_are_waited_for(secs, none, none, now);
    assert(none + fixdate(secs) + none =~= fixdate(secs));
}

/// A header that names a number of seconds is answered with those seconds.
pub proof fn seconds_are_answered(
    fields: Seq<(Seq<char>, Seq<u8>)>,
    n: nat,
    r: Option<Duration>,
)
    requires
        n <= 0xffff_ffff_ffff_ffff,
        headers::first_value(fields, "retry-after"@) == Some(written(n)),
        may_ask(fields, r),
    ensures
        r is Some,
        r->0@ == n * 1_000_000_000,
{
    let now = choose|now: WallClock|
        {
            &&& time::is_now(now)
            &&& r is Some <==> (#[trigger] wait_asked(fields, now)) is Some
            &&& r is Some ==> r->0@ == wait_asked(fields, now)->0
        };
    let none = Seq::<u8>::empty();
    written_seconds_are_waited_for(n, none, none, now);
    assert(none + written(n) + none =~= written(n));
}

/// Zeros before a number count for nothing.
proof fn lemma_leading_zeros(zeros: Seq<u8>, s: Seq<u8>)
    requires
        forall|i: int| 0 <= i < zeros.len() ==> #[trigger] zeros[i] == 48,
        is_number(s),
    ensures
        is_number(zeros + s),
        number(zeros + s) == number(s),
    decreases s.len(),
{
    let all = zeros + s;
    assert forall|i: int| 0 <= i < all.len() implies is_digit(#[trigger] all[i]) by {
        if i < zeros.len() {
            assert(all[i] == zeros[i]);
        } else {
            assert(is_digit(s[i - zeros.len()]));
        }
    }
    assert(all.drop_last() =~= zeros + s.drop_last());
    assert(all.last() == s.last());
    reveal_with_fuel(number, 2);
    assert(number(all) == number(all.drop_last()) * 10 + (all.last() - 48));
    if s.len() > 1 {
        assert forall|i: int| 0 <= i < s.drop_last().len() implies is_digit(
            #[trigger] s.drop_last()[i],
        ) by {
            assert(is_digit(s[i]));
        }
        lemma_leading_zeros(zeros, s.drop_last());
    } else {
        assert(s.drop_last() =~= Seq::empty());
        assert(zeros + s.drop_last() =~= zeros);
        lemma_zeros(zeros);
    }
}

proof fn lemma_zeros(zeros: Seq<u8>)
    requires
        forall|i: int| 0 <= i < zeros.len() ==> #[trigger] zeros[i] == 48,
    ensures
        number(zeros) == 0,
    decreases zeros.len(),
{
    if zeros.len() > 0 {
        lemma_zeros(zeros.drop_last());
    }
}

/// A number of seconds with zeros before it asks for the same wait as without. A number
/// that does not fit in 64 bits asks for none.
pub proof fn seconds_are_read_as_numbers(n: nat, zeros: Seq<u8>, now: WallClock)
    requires
        forall|i: int| 0 <= i < zeros.len() ==> #[trigger] zeros[i] == 48,
    ensures
        n <= 0xffff_ffff_ffff_ffff ==> wait_named(zeros + written(n), now) == Some(
            (n * 1_000_000_000) as nat,
        ),
        n > 0xffff_ffff_ffff_ffff ==> wait_named(zeros + written(n), now) is None,
{
    let text = zeros + written(n);
    let none = Seq::<u8>::empty();
    lemma_written(n);
    lemma_leading_zeros(zeros, written(n));
    assert(is_digit(text[0]) && is_digit(text.last()));
    lemma_trimmed(none, text, none);
    assert(none + text + none =~= text);
    assert forall|i: int| 0 <= i < text.len() implies (32 <= #[trigger] text[i] < 127 || text[i]
        == 9) by {
        assert(is_digit(text[i]));
    }
    if text.len() == 29 {
        assert(is_digit(text[3]));
    }
}

/// A date that is written is read back field by field: any day of the week, any day of
/// the month up to the 31st, and a leap second among them. A day past the end of its
/// month is counted on into the next.
pub proof fn dates_are_read_field_by_field(
    weekday: int,
    date: (int, int, int),
    hour: int,
    min: int,
    sec: int,
)
    requires
        0 <= weekday < 7,
        0 <= date.0 <= 9_999,
        1 <= date.1 <= 12,
        1 <= date.2 <= 31,
        0 <= hour < 24,
        0 <= min < 60,
        0 <= sec <= 60,
    ensures
        is_date(date_text(weekday, date, hour, min, sec)),
        date_secs(date_text(weekday, date, hour, min, sec)) == calendar::days_since_epoch(
            date.0,
            date.1,
            1,
        ) * 86_400 + (date.2 - 1) * 86_400 + hour * 3_600 + min * 60 + sec,
{
    lemma_date_text(weekday, date, hour, min, sec);
    calendar::days_are_numbered_on(date.0, date.1, date.2);
}

} // verus!

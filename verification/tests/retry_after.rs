use courier::retry::calendar::days_from_civil;
use courier::retry::retry_after;
use courier::time::{until, WallClock};
use courier::Duration;

fn header(value: &str) -> http::HeaderMap {
    let mut headers = http::HeaderMap::new();
    headers.insert(http::header::RETRY_AFTER, value.parse().unwrap());
    headers
}

#[test]
fn retry_after_delay_seconds() {
    assert_eq!(
        retry_after::parse(&header("120")),
        Some(Duration::from_secs(120))
    );
    assert_eq!(
        retry_after::parse(&header(" 3 ")),
        Some(Duration::from_secs(3))
    );
    assert_eq!(retry_after::parse(&header("0")), Some(Duration::zero()));
}

#[test]
fn retry_after_http_date() {
    let future = std::time::SystemTime::now() + std::time::Duration::from_secs(60 * 60);
    let secs = future
        .duration_since(std::time::SystemTime::UNIX_EPOCH)
        .unwrap()
        .as_secs();
    // Only the date matters here, so build one the parser should agree
    // with: 2038-01-19 03:14:07 GMT.
    let parsed = retry_after::parse(&header("Tue, 19 Jan 2038 03:14:07 GMT"))
        .expect("a date that far out is still in the future");
    let expected = Duration::from_secs(2_147_483_647 - secs + 60 * 60);
    // Within a second of the computed distance.
    assert!(
        parsed.as_nanos().abs_diff(expected.as_nanos()) < Duration::from_secs(2).as_nanos(),
        "{parsed:?} vs {expected:?}"
    );
}

#[test]
fn retry_after_past_date_is_ignored() {
    assert_eq!(
        retry_after::parse(&header("Sun, 06 Nov 1994 08:49:37 GMT")),
        None
    );
}

#[test]
fn retry_after_garbage_is_ignored() {
    assert_eq!(retry_after::parse(&http::HeaderMap::new()), None);
    assert_eq!(retry_after::parse(&header("soon")), None);
    assert_eq!(retry_after::parse(&header("-5")), None);
    assert_eq!(retry_after::parse(&header("1.5")), None);
    assert_eq!(
        retry_after::parse(&header("Tue, 19 Xxx 2038 03:14:07 GMT")),
        None
    );
    assert_eq!(
        retry_after::parse(&header("Tue, 19 Jan 2038 33:14:07 GMT")),
        None
    );
    assert_eq!(
        retry_after::parse(&header("Tue, 19 Jan 2038 03:14:07")),
        None
    );
}

#[test]
fn dates_are_seconds_since_the_epoch() {
    let cases: [(&str, Option<u64>); 12] = [
        ("Thu, 01 Jan 1970 00:00:00 GMT", Some(0)),
        ("Sun, 06 Nov 1994 08:49:37 GMT", Some(784_111_777)),
        ("Tue, 29 Feb 2000 12:00:00 GMT", Some(951_825_600)),
        ("Thu, 31 Dec 2099 23:59:59 GMT", Some(4_102_444_799)),
        ("Mon, 01 Mar 2100 00:00:00 GMT", Some(4_107_542_400)),
        ("Sat, 31 Dec 2016 23:59:60 GMT", Some(1_483_228_800)),
        ("Wed, 31 Dec 1969 23:59:59 GMT", None),
        ("Thu, 00 Jan 1970 00:00:00 GMT", None),
        ("Thu, 32 Jan 1970 00:00:00 GMT", None),
        ("Thu, 01 Jan 1970 00:60:00 GMT", None),
        ("Thu, 01 Jan 1970 00:00:61 GMT", None),
        ("Thu, 01 Jan 1970 00:00:00 UTC", None),
    ];
    for (text, secs) in cases {
        assert_eq!(retry_after::http_date(text.as_bytes()), secs, "{text}");
    }
}

#[test]
fn every_month_is_named() {
    let months = [
        "Jan", "Feb", "Mar", "Apr", "May", "Jun", "Jul", "Aug", "Sep", "Oct", "Nov", "Dec",
    ];
    for (i, month) in months.iter().enumerate() {
        let text = format!("Sun, 01 {month} 2023 00:00:00 GMT");
        let days = days_from_civil(2023, i as i64 + 1, 1);
        assert_eq!(
            retry_after::http_date(text.as_bytes()),
            Some(days as u64 * 86_400)
        );
    }
}

#[test]
fn every_day_of_the_week_is_named() {
    for day in ["Sun", "Mon", "Tue", "Wed", "Thu", "Fri", "Sat"] {
        let text = format!("{day}, 19 Jan 2038 03:14:07 GMT");
        assert_eq!(
            retry_after::http_date(text.as_bytes()),
            Some(2_147_483_647),
            "{text}"
        );
    }
}

#[test]
fn malformed_values_are_ignored() {
    for text in [
        "+5",
        "5s",
        "Xyz, 19 Jan 2038 03:14:07 GMT",
        "tue, 19 Jan 2038 03:14:07 GMT",
        "Tue, 19-Jan-2038-03-14-07 GMT",
        "Tue, 19-Jan 2038 03:14:07 GMT",
        "Tue, 19 Jan-2038 03:14:07 GMT",
        "Tue, 19 Jan 2038T03:14:07 GMT",
        "Tue, 19 Jan 2038 03-14:07 GMT",
        "Tue, 19 Jan 2038 03:14.07 GMT",
        "Tue; 19 Jan 2038 03:14:07 GMT",
    ] {
        assert_eq!(retry_after::http_date(text.as_bytes()), None, "{text}");
        assert_eq!(
            retry_after::parse_at(&header(text), WallClock::After(0)),
            None,
            "{text}"
        );
    }
}

#[test]
fn written_dates_are_read_back() {
    // The texts of these times, in seconds after the start of 1970.
    let cases: [(u64, &str); 7] = [
        (0, "Thu, 01 Jan 1970 00:00:00 GMT"),
        (68_255_999, "Tue, 29 Feb 1972 23:59:59 GMT"),
        (68_256_000, "Wed, 01 Mar 1972 00:00:00 GMT"),
        (951_782_400, "Tue, 29 Feb 2000 00:00:00 GMT"),
        (4_107_542_399, "Sun, 28 Feb 2100 23:59:59 GMT"),
        (4_107_542_400, "Mon, 01 Mar 2100 00:00:00 GMT"),
        (253_402_300_799, "Fri, 31 Dec 9999 23:59:59 GMT"),
    ];
    for (secs, text) in cases {
        assert_eq!(retry_after::http_date(text.as_bytes()), Some(secs), "{text}");
    }
}

#[test]
fn days_count_from_the_epoch() {
    assert_eq!(days_from_civil(1970, 1, 1), 0);
    assert_eq!(days_from_civil(1970, 1, 2), 1);
    assert_eq!(days_from_civil(1969, 12, 31), -1);
    assert_eq!(days_from_civil(2000, 2, 29), 11_016);
    assert_eq!(days_from_civil(2000, 3, 1), 11_017);
    assert_eq!(days_from_civil(1900, 3, 1) - days_from_civil(1900, 2, 28), 1);
    assert_eq!(days_from_civil(2038, 1, 19), 24_855);
    assert_eq!(days_from_civil(0, 3, 1), -719_468);
}

#[test]
fn numbers_are_plain_digits() {
    assert_eq!(retry_after::num("07".as_bytes()), Some(7));
    assert_eq!(retry_after::num("1994".as_bytes()), Some(1994));
    assert_eq!(retry_after::num("".as_bytes()), None);
    assert_eq!(retry_after::num("+7".as_bytes()), None);
    assert_eq!(
        retry_after::num("9223372036854775807".as_bytes()),
        Some(i64::MAX)
    );
    assert_eq!(retry_after::num("9223372036854775808".as_bytes()), None);
}

#[test]
fn seconds_ignore_the_clock() {
    for now in [
        WallClock::After(0),
        WallClock::After(5_000_000_000_000_000_000),
        WallClock::Before(7),
    ] {
        assert_eq!(
            retry_after::parse_at(&header("\t17 "), now),
            Some(Duration::from_secs(17))
        );
        assert_eq!(
            retry_after::parse_at(&header("18446744073709551615"), now),
            Some(Duration::from_secs(u64::MAX))
        );
        assert_eq!(
            retry_after::parse_at(&header("18446744073709551616"), now),
            None
        );
    }
}

#[test]
fn dates_wait_for_what_is_left() {
    let date = header("Sun, 06 Nov 1994 08:49:37 GMT");
    let at: u128 = 784_111_777_000_000_000;
    assert_eq!(
        retry_after::parse_at(&date, WallClock::After(at - 1_500_000_000)),
        Some(Duration::from_millis(1_500))
    );
    assert_eq!(
        retry_after::parse_at(&date, WallClock::After(at)),
        Some(Duration::zero())
    );
    assert_eq!(retry_after::parse_at(&date, WallClock::After(at + 1)), None);
    assert_eq!(
        retry_after::parse_at(&date, WallClock::Before(1_000_000_000)),
        Some(Duration::from_secs(784_111_778))
    );
}

#[test]
fn the_first_value_counts() {
    let mut headers = header("4");
    headers.append(http::header::RETRY_AFTER, "9".parse().unwrap());
    assert_eq!(
        retry_after::parse(&headers),
        Some(Duration::from_secs(4))
    );
}

#[test]
fn values_that_are_no_text_are_ignored() {
    let mut headers = http::HeaderMap::new();
    headers.insert(
        http::header::RETRY_AFTER,
        http::HeaderValue::from_bytes(&[b'1', 0xff]).unwrap(),
    );
    assert_eq!(retry_after::parse(&headers), None);
}

#[test]
fn clock_readings_are_compared() {
    assert_eq!(
        until(2, WallClock::After(500_000_000)),
        Some(Duration::from_millis(1_500))
    );
    assert_eq!(until(0, WallClock::After(1)), None);
    assert_eq!(
        until(1, WallClock::Before(u128::MAX)),
        Some(Duration::saturating_from_nanos(u128::MAX))
    );
}

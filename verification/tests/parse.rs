use clonk::parse::{read_rfc2822, read_rfc3339};
use clonk::render::{render_rfc2822, render_rfc3339};
use clonk::timestamp::Timestamp;
use chrono::{Datelike, Timelike};

fn ts(
    year: i32,
    month: u8,
    day: u8,
    hour: u8,
    minute: u8,
    second: u8,
    nanosecond: u32,
    offset_seconds: i32,
) -> Timestamp {
    Timestamp { year, month, day, hour, minute, second, nanosecond, offset_seconds }
}

fn bytes(s: &str) -> Vec<u8> {
    s.as_bytes().to_vec()
}

#[test]
fn rfc3339_parse_epoch() {
    let t = read_rfc3339(&bytes("1970-01-01T00:00:00+00:00")).unwrap();
    assert_eq!(t, ts(1970, 1, 1, 0, 0, 0, 0, 0));
}

#[test]
fn rfc3339_parse_zulu() {
    let t = read_rfc3339(&bytes("2024-01-01T12:30:45Z")).unwrap();
    assert_eq!(t, ts(2024, 1, 1, 12, 30, 45, 0, 0));
}

#[test]
fn rfc3339_parse_relaxed_shapes() {
    // A space or a lowercase letter may separate date and time, and a
    // lowercase zone marker is accepted.
    let t = read_rfc3339(&bytes("2024-01-01 12:30:45Z")).unwrap();
    assert_eq!(t, ts(2024, 1, 1, 12, 30, 45, 0, 0));
    let t = read_rfc3339(&bytes("2024-01-01t12:30:45z")).unwrap();
    assert_eq!(t, ts(2024, 1, 1, 12, 30, 45, 0, 0));
    // Fraction digits past the ninth carry no value but are consumed.
    let t = read_rfc3339(&bytes("2024-01-01T00:00:00.1234567890123+00:00")).unwrap();
    assert_eq!(t.nanosecond, 123_456_789);
}

#[test]
fn rfc3339_parse_fraction_and_offset() {
    let t = read_rfc3339(&bytes("2024-06-15T01:02:03.500+05:30")).unwrap();
    assert_eq!(t, ts(2024, 6, 15, 1, 2, 3, 500_000_000, 19800));
    let t = read_rfc3339(&bytes("2024-06-15T01:02:03.123456789-08:00")).unwrap();
    assert_eq!(t, ts(2024, 6, 15, 1, 2, 3, 123_456_789, -28800));
    // Any fraction width from one to nine digits scales to nanoseconds.
    let t = read_rfc3339(&bytes("2024-06-15T01:02:03.5+00:00")).unwrap();
    assert_eq!(t.nanosecond, 500_000_000);
    let t = read_rfc3339(&bytes("2024-06-15T01:02:03.12345+00:00")).unwrap();
    assert_eq!(t.nanosecond, 123_450_000);
}

#[test]
fn rfc3339_parse_leap_second() {
    let t = read_rfc3339(&bytes("2016-12-31T23:59:60.500+00:00")).unwrap();
    assert_eq!(t, ts(2016, 12, 31, 23, 59, 59, 1_500_000_000, 0));
}

#[test]
fn rfc3339_rejects_bad_text() {
    for s in [
        "",
        "2024-01-01",
        "2024-13-01T00:00:00+00:00",
        "2024-01-32T00:00:00+00:00",
        "2024-02-30T00:00:00+00:00",
        "2024-01-01T24:00:00+00:00",
        "2024-01-01T00:60:00+00:00",
        "2024-01-01T00:00:61+00:00",
        "2024-01-01X00:00:00+00:00",
        "2024-01-01T00:00:00",
        "2024-01-01T00:00:00+24:00",
        "2024-01-01T00:00:00+00:00x",
        "2024-01-01T00:00:00.+00:00",
        "202a-01-01T00:00:00+00:00",
    ] {
        assert!(read_rfc3339(&bytes(s)).is_none(), "accepted: {}", s);
    }
}

#[test]
fn rfc3339_accepts_nonleap_february_29_only_in_leap_years() {
    assert!(read_rfc3339(&bytes("2024-02-29T00:00:00+00:00")).is_some());
    assert!(read_rfc3339(&bytes("2023-02-29T00:00:00+00:00")).is_none());
    assert!(read_rfc3339(&bytes("1900-02-29T00:00:00+00:00")).is_none());
    assert!(read_rfc3339(&bytes("2000-02-29T00:00:00+00:00")).is_some());
}

#[test]
fn rfc2822_parse_epoch() {
    let t = read_rfc2822(&bytes("Thu, 1 Jan 1970 00:00:00 +0000")).unwrap();
    assert_eq!(t, ts(1970, 1, 1, 0, 0, 0, 0, 0));
}

#[test]
fn rfc2822_parse_two_digit_day() {
    let t = read_rfc2822(&bytes("Wed, 25 Dec 2024 13:30:05 -0500")).unwrap();
    assert_eq!(t, ts(2024, 12, 25, 13, 30, 5, 0, -18000));
}

#[test]
fn rfc2822_checks_weekday_agreement() {
    assert!(read_rfc2822(&bytes("Fri, 1 Jan 1970 00:00:00 +0000")).is_none());
    assert!(read_rfc2822(&bytes("Mon, 25 Dec 2024 13:30:05 -0500")).is_none());
}

#[test]
fn rfc2822_optional_parts() {
    // The weekday is optional, and so are the seconds.
    let t = read_rfc2822(&bytes("1 Jan 1970 00:00:00 +0000")).unwrap();
    assert_eq!(t, ts(1970, 1, 1, 0, 0, 0, 0, 0));
    let t = read_rfc2822(&bytes("Thu, 1 Jan 1970 00:00 +0000")).unwrap();
    assert_eq!(t, ts(1970, 1, 1, 0, 0, 0, 0, 0));
    // Two-digit years split at 50; three-digit years lie in the 1900s.
    let t = read_rfc2822(&bytes("Thu, 1 Jan 70 00:00:00 +0000")).unwrap();
    assert_eq!(t.year, 1970);
    let t = read_rfc2822(&bytes("Fri, 1 Jan 49 00:00:00 +0000")).unwrap();
    assert_eq!(t.year, 2049);
    let t = read_rfc2822(&bytes("Sun, 1 Jan 112 00:00:00 +0000")).unwrap();
    assert_eq!(t.year, 2012);
}

#[test]
fn rfc2822_named_zones() {
    let t = read_rfc2822(&bytes("Thu, 1 Jan 1970 00:00:00 GMT")).unwrap();
    assert_eq!(t.offset_seconds, 0);
    let t = read_rfc2822(&bytes("Wed, 25 Dec 2024 13:30:05 EST")).unwrap();
    assert_eq!(t.offset_seconds, -18000);
    let t = read_rfc2822(&bytes("25 Dec 2024 13:30 pst")).unwrap();
    assert_eq!(t.offset_seconds, -28800);
    assert_eq!(t.second, 0);
    // A military zone letter is consumed and read as zero.
    let t = read_rfc2822(&bytes("1 Jan 1970 00:00:00 K")).unwrap();
    assert_eq!(t.offset_seconds, 0);
    // Names match in any case.
    let t = read_rfc2822(&bytes("thu, 1 jan 1970 00:00:00 ut")).unwrap();
    assert_eq!(t, ts(1970, 1, 1, 0, 0, 0, 0, 0));
}

#[test]
fn rfc2822_rejects_bad_text() {
    for s in [
        "",
        "Thu 1 Jan 1970 00:00:00 +0000",
        "Xyz, 1 Jan 1970 00:00:00 +0000",
        "Thu, 1 Foo 1970 00:00:00 +0000",
        "Thu, 0 Jan 1970 00:00:00 +0000",
        "Thu, 32 Jan 1970 00:00:00 +0000",
        "Thu, 1 Jan 1970 00:00:00 +0000 ",
        "Thu, 1 Jan 1970 00:00:00 0000",
        "Thu, 1 Jan 1970 00:00:00 JST",
        "Thu, 1 Jan 1970 00:00:00 J",
    ] {
        assert!(read_rfc2822(&bytes(s)).is_none(), "accepted: {}", s);
    }
}

#[test]
fn rfc2822_parse_agrees_with_chrono() {
    for s in [
        "1 Jan 1970 00:00:00 +0000",
        "Thu, 1 Jan 70 00:00:00 GMT",
        "Wed, 25 Dec 2024 13:30 EST",
        "thu, 1 jan 1970 00:00:00 ut",
    ] {
        let ours = read_rfc2822(&bytes(s)).unwrap();
        let theirs = chrono::DateTime::parse_from_rfc2822(s).unwrap();
        assert_eq!(ours.year, theirs.year());
        assert_eq!(ours.month as u32, theirs.month());
        assert_eq!(ours.day as u32, theirs.day());
        assert_eq!(ours.hour as u32, theirs.hour());
        assert_eq!(ours.minute as u32, theirs.minute());
        assert_eq!(ours.second as u32, theirs.second());
        assert_eq!(ours.offset_seconds, theirs.offset().local_minus_utc());
    }
}

#[test]
fn round_trip_rfc3339() {
    for t in [
        ts(2024, 6, 15, 1, 2, 3, 500_000_000, 19800),
        ts(1970, 1, 1, 0, 0, 0, 0, 0),
        ts(2016, 12, 31, 23, 59, 59, 1_500_000_000, -3600),
        ts(9999, 12, 31, 23, 59, 59, 999_999_999, 0),
    ] {
        assert_eq!(read_rfc3339(&render_rfc3339(&t)).unwrap(), t);
    }
}

#[test]
fn off_minute_offset_rounds_when_read_back() {
    // An offset with stray seconds has no exact rendering: the text
    // carries the nearest whole minute, and reads back as it.
    let t = ts(2024, 6, 15, 1, 2, 3, 0, 30);
    let line = render_rfc3339(&t);
    assert_eq!(String::from_utf8(line.clone()).unwrap(), "2024-06-15T01:02:03+00:01");
    let back = read_rfc3339(&line).unwrap();
    assert_eq!(back, ts(2024, 6, 15, 1, 2, 3, 0, 60));
    let t = ts(2024, 6, 15, 1, 2, 3, 0, -29);
    let back = read_rfc2822(&render_rfc2822(&t)).unwrap();
    assert_eq!(back.offset_seconds, 0);
}

#[test]
fn round_trip_rfc2822_truncates_fraction() {
    let t = ts(2024, 6, 15, 1, 2, 3, 500_000_000, 19800);
    let got = read_rfc2822(&render_rfc2822(&t)).unwrap();
    assert_eq!(got, ts(2024, 6, 15, 1, 2, 3, 0, 19800));
    let leap = ts(2016, 12, 31, 23, 59, 59, 1_500_000_000, 0);
    let got = read_rfc2822(&render_rfc2822(&leap)).unwrap();
    assert_eq!(got, ts(2016, 12, 31, 23, 59, 59, 1_000_000_000, 0));
}

#[test]
fn parse_agrees_with_chrono() {
    for s in [
        "2024-06-15T01:02:03.500+05:30",
        "2016-12-31T23:59:60.500+00:00",
        "1970-01-01T00:00:00Z",
    ] {
        let ours = read_rfc3339(&bytes(s)).unwrap();
        let theirs = chrono::DateTime::parse_from_rfc3339(s).unwrap();
        assert_eq!(ours.year, theirs.year());
        assert_eq!(ours.month as u32, theirs.month());
        assert_eq!(ours.day as u32, theirs.day());
        assert_eq!(ours.hour as u32, theirs.hour());
        assert_eq!(ours.minute as u32, theirs.minute());
        assert_eq!(ours.second as u32, theirs.second());
        assert_eq!(ours.nanosecond, theirs.nanosecond());
        assert_eq!(ours.offset_seconds, theirs.offset().local_minus_utc());
    }
}

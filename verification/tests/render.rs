use clonk::dispatch::Format;
use clonk::render::{render, render_rfc2822, render_rfc3339, render_timestamp};
use clonk::timestamp::Timestamp;
use chrono::TimeZone;

fn ts(
    year: i32,
    month: u8,
    day: u8,
    hour: u8,
    minute: u8,
    second: u8,
    nanosecond: u32,
    offset_seconds: i32,
) -> Timestamp {
    Timestamp { year, month, day, hour, minute, second, nanosecond, offset_seconds }
}

fn text(v: Vec<u8>) -> String {
    String::from_utf8(v).unwrap()
}

#[test]
fn rfc3339_epoch() {
    let t = ts(1970, 1, 1, 0, 0, 0, 0, 0);
    assert_eq!(text(render_rfc3339(&t)), "1970-01-01T00:00:00+00:00");
}

#[test]
fn rfc3339_new_year_2024() {
    let t = ts(2024, 1, 1, 0, 0, 0, 0, 0);
    assert_eq!(text(render_rfc3339(&t)), "2024-01-01T00:00:00+00:00");
}

#[test]
fn rfc3339_fraction_widths() {
    assert_eq!(
        text(render_rfc3339(&ts(2024, 6, 15, 1, 2, 3, 500_000_000, 0))),
        "2024-06-15T01:02:03.500+00:00"
    );
    assert_eq!(
        text(render_rfc3339(&ts(2024, 6, 15, 1, 2, 3, 500_500_000, 0))),
        "2024-06-15T01:02:03.500500+00:00"
    );
    assert_eq!(
        text(render_rfc3339(&ts(2024, 6, 15, 1, 2, 3, 123_456_789, 0))),
        "2024-06-15T01:02:03.123456789+00:00"
    );
}

#[test]
fn rfc3339_offsets() {
    assert_eq!(
        text(render_rfc3339(&ts(2024, 6, 15, 1, 2, 3, 0, 19800))),
        "2024-06-15T01:02:03+05:30"
    );
    assert_eq!(
        text(render_rfc3339(&ts(2024, 6, 15, 1, 2, 3, 0, -28800))),
        "2024-06-15T01:02:03-08:00"
    );
}

#[test]
fn rfc3339_leap_second() {
    let t = ts(2016, 12, 31, 23, 59, 59, 1_500_000_000, 0);
    assert_eq!(text(render_rfc3339(&t)), "2016-12-31T23:59:60.500+00:00");
}

#[test]
fn rfc2822_epoch() {
    let t = ts(1970, 1, 1, 0, 0, 0, 0, 0);
    assert_eq!(text(render_rfc2822(&t)), "Thu, 1 Jan 1970 00:00:00 +0000");
}

#[test]
fn rfc2822_two_digit_day() {
    let t = ts(2024, 12, 25, 13, 30, 5, 0, -18000);
    assert_eq!(text(render_rfc2822(&t)), "Wed, 25 Dec 2024 13:30:05 -0500");
}

#[test]
fn timestamp_values() {
    assert_eq!(text(render_timestamp(&ts(1970, 1, 1, 0, 0, 0, 0, 0))), "0");
    assert_eq!(text(render_timestamp(&ts(2024, 1, 1, 0, 0, 0, 0, 0))), "1704067200");
    assert_eq!(text(render_timestamp(&ts(1969, 12, 31, 23, 59, 59, 0, 0))), "-1");
    // The offset shifts the epoch count: one hour east of UTC is an hour earlier.
    assert_eq!(text(render_timestamp(&ts(2024, 1, 1, 0, 0, 0, 0, 3600))), "1704063600");
}

#[test]
fn render_dispatches_by_format() {
    let t = ts(2024, 1, 1, 0, 0, 0, 0, 0);
    assert_eq!(text(render(&t, Format::Rfc3339)), "2024-01-01T00:00:00+00:00");
    assert_eq!(text(render(&t, Format::Rfc2822)), "Mon, 1 Jan 2024 00:00:00 +0000");
    assert_eq!(text(render(&t, Format::Timestamp)), "1704067200");
}

#[test]
fn render_agrees_with_chrono() {
    let cases = [
        (2024, 6, 15, 1, 2, 3, 500_000_000u32, 19800),
        (1999, 12, 31, 23, 59, 59, 0, -28800),
        (1970, 1, 1, 0, 0, 0, 0, 0),
        (2038, 1, 19, 3, 14, 7, 123_456_789, 3600),
    ];
    for &(y, mo, d, h, mi, s, ns, off) in cases.iter() {
        let dt = chrono::FixedOffset::east_opt(off)
            .unwrap()
            .with_ymd_and_hms(y, mo, d, h, mi, s)
            .unwrap()
            + chrono::Duration::nanoseconds(ns as i64);
        let t = ts(y, mo as u8, d as u8, h as u8, mi as u8, s as u8, ns, off);
        assert_eq!(text(render_rfc3339(&t)), dt.to_rfc3339());
        assert_eq!(text(render_rfc2822(&t)), dt.to_rfc2822());
        assert_eq!(text(render_timestamp(&t)), dt.timestamp().to_string());
    }
}

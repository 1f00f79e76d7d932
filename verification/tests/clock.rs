use clonk::calendar::leap_year;
use clonk::clock::{
    denormalize_leap_second, posix_clock_fields, set_call_failed, to_local, windows_clock_fields,
};
use clonk::timestamp::Timestamp;
use chrono::{Datelike, TimeZone, Timelike};

fn ts(
    year: i32,
    month: u8,
    day: u8,
    hour: u8,
    minute: u8,
    second: u8,
    nanosecond: u32,
    offset_seconds: i32,
) -> Timestamp {
    Timestamp { year, month, day, hour, minute, second, nanosecond, offset_seconds }
}

#[test]
fn leap_years() {
    assert!(leap_year(2000));
    assert!(leap_year(2024));
    assert!(!leap_year(1900));
    assert!(!leap_year(2023));
}

#[test]
fn epoch_seconds_known_values() {
    assert_eq!(ts(1970, 1, 1, 0, 0, 0, 0, 0).to_epoch_seconds(), 0);
    assert_eq!(ts(2024, 1, 1, 0, 0, 0, 0, 0).to_epoch_seconds(), 1704067200);
    assert_eq!(ts(2024, 1, 1, 0, 0, 0, 0, 3600).to_epoch_seconds(), 1704063600);
    assert_eq!(ts(1969, 12, 31, 23, 59, 59, 0, 0).to_epoch_seconds(), -1);
    assert_eq!(ts(2038, 1, 19, 3, 14, 8, 0, 0).to_epoch_seconds(), 2147483648);
}

#[test]
fn weekdays_known_values() {
    assert_eq!(ts(1970, 1, 1, 0, 0, 0, 0, 0).weekday(), 4);
    assert_eq!(ts(2024, 1, 1, 0, 0, 0, 0, 0).weekday(), 1);
    assert_eq!(ts(2024, 12, 25, 0, 0, 0, 0, 0).weekday(), 3);
    assert_eq!(ts(1969, 12, 31, 0, 0, 0, 0, 0).weekday(), 3);
}

#[test]
fn denormalize_leap_second_folds() {
    assert_eq!(denormalize_leap_second(1_500_000_000, 59), (500_000_000, 60));
    assert_eq!(denormalize_leap_second(999_999_999, 30), (999_999_999, 30));
    assert_eq!(denormalize_leap_second(1_999_999_999, 59), (999_999_999, 60));
}

#[test]
fn windows_fields_leap_second() {
    let w = windows_clock_fields(&ts(2016, 12, 31, 23, 59, 59, 1_500_000_000, 0));
    assert_eq!(w.second, 60);
    assert_eq!(w.milliseconds, 500);
    assert!(w.milliseconds <= 999);
    let w = windows_clock_fields(&ts(2016, 12, 31, 23, 59, 59, 1_999_999_999, 0));
    assert_eq!(w.second, 60);
    assert_eq!(w.milliseconds, 999);
}

#[test]
fn windows_fields_plain() {
    let w = windows_clock_fields(&ts(2024, 12, 25, 13, 30, 5, 123_456_789, -18000));
    assert_eq!(w.year, 2024);
    assert_eq!(w.month, 12);
    assert_eq!(w.day, 25);
    assert_eq!(w.day_of_week, 3);
    assert_eq!(w.hour, 13);
    assert_eq!(w.minute, 30);
    assert_eq!(w.second, 5);
    assert_eq!(w.milliseconds, 123);
}

#[test]
fn posix_fields() {
    let r = posix_clock_fields(&ts(2024, 1, 1, 0, 0, 0, 123_456_789, 0));
    assert_eq!(r, (1704067200, 123_456));
    // A folded leap second leaves the microsecond field at a full second or
    // more, as the caller's convention has it.
    let r = posix_clock_fields(&ts(2016, 12, 31, 23, 59, 59, 1_500_000_000, 0));
    assert_eq!(r, (1483228799, 1_500_000));
}

#[test]
fn set_call_failure_codes() {
    assert!(!set_call_failed(None));
    assert!(!set_call_failed(Some(0)));
    assert!(set_call_failed(Some(1)));
    assert!(set_call_failed(Some(13)));
}

#[test]
fn now_is_a_valid_timestamp() {
    let t = clonk::clock::now_local();
    assert!(t.is_valid());
    assert!(t.nanosecond < 1_000_000_000);
    assert!((1..=12).contains(&t.month));
    let y = chrono::Local::now().year();
    assert!((t.year - y).abs() <= 1);
}

#[test]
fn to_local_keeps_the_instant() {
    let t = ts(2024, 6, 15, 12, 0, 0, 250_000_000, 18000);
    let l = to_local(&t);
    assert!(l.is_valid());
    assert_eq!(l.to_epoch_seconds(), t.to_epoch_seconds());
    assert_eq!(l.nanosecond, t.nanosecond);
    // The fields really move into the host's timezone.
    let there = chrono::FixedOffset::east_opt(18000)
        .unwrap()
        .with_ymd_and_hms(2024, 6, 15, 12, 0, 0)
        .unwrap()
        .with_timezone(&chrono::Local);
    assert_eq!(l.offset_seconds, there.offset().local_minus_utc());
    assert_eq!((l.year, l.month as u32, l.day as u32), (there.year(), there.month(), there.day()));
    assert_eq!((l.hour as u32, l.minute as u32), (there.hour(), there.minute()));
}

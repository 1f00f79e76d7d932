//! The clock adapter: reading the current local time, converting a parsed
//! timestamp into local time, and decomposing a timestamp into the fields
//! that the platform clock-set calls expect. The two chrono calls are the
//! only outside work; everything around them is verified.

use vstd::prelude::*;
use chrono::Datelike;
use chrono::Timelike;
use chrono::{FixedOffset, Local, NaiveDate, NaiveDateTime, NaiveTime};
use crate::timestamp::Timestamp;

verus! {

/// The calendar fields the Windows clock-set call takes: a plain record in
/// the shape of its `SYSTEMTIME` argument.
#[derive(Clone, Copy, Debug, PartialEq, Eq, Structural)]
pub struct WinSystemTime {
    pub year: u16,
    pub month: u16,
    /// 0 = Sunday through 6 = Saturday.
    pub day_of_week: u16,
    pub day: u16,
    pub hour: u16,
    pub minute: u16,
    pub second: u16,
    pub milliseconds: u16,
}

/// Unfolds a leap second held in the sub-second field into the seconds
/// field: the fraction drops below one second and the second rises by one.
pub fn denormalize_leap_second(nanoseconds: u32, seconds: u32) -> (r: (u32, u32))
    requires
        nanoseconds < 2_000_000_000,
        seconds <= 59,
    ensures
        nanoseconds >= 1_000_000_000 ==> r.0 == nanoseconds - 1_000_000_000 && r.1 == seconds + 1,
        nanoseconds < 1_000_000_000 ==> r.0 == nanoseconds && r.1 == seconds,
        r.0 < 1_000_000_000,
        r.1 <= 60,
{
    if nanoseconds >= 1_000_000_000 {
        (nanoseconds - 1_000_000_000, seconds + 1)
    } else {
        (nanoseconds, seconds)
    }
}

/// The record handed to the Windows clock-set call: the timestamp's own
/// fields, its weekday, and a folded leap second moved into the seconds
/// field so the milliseconds stay in range.
pub fn windows_clock_fields(t: &Timestamp) -> (w: WinSystemTime)
    requires
        t.valid(),
        t.in_era(),
    ensures
        w.year == t.year,
        w.month == t.month,
        w.day == t.day,
        w.day_of_week == t.day_of_week(),
        w.hour == t.hour,
        w.minute == t.minute,
        w.second == t.second + (if t.nanosecond >= 1_000_000_000 {
            1int
        } else {
            0int
        }),
        w.milliseconds == (if t.nanosecond >= 1_000_000_000 {
            t.nanosecond - 1_000_000_000
        } else {
            t.nanosecond as int
        }) / 1_000_000,
        w.milliseconds <= 999,
{
    let parts = denormalize_leap_second(t.nanosecond, t.second as u32);
    WinSystemTime {
        year: t.year as u16,
        month: t.month as u16,
        day_of_week: t.weekday() as u16,
        day: t.day as u16,
        hour: t.hour as u16,
        minute: t.minute as u16,
        second: parts.1 as u16,
        milliseconds: (parts.0 / 1_000_000) as u16,
    }
}

/// The tuple handed to the POSIX clock-set call: epoch seconds and the
/// microsecond remainder, exactly the timestamp's sub-second field in
/// microseconds (a folded leap second leaves it at a full second or more,
/// as the caller's convention has it).
pub fn posix_clock_fields(t: &Timestamp) -> (r: (i64, u32))
    requires
        t.valid(),
    ensures
        r.0 == t.epoch_seconds(),
        r.1 == t.nanosecond / 1000,
        r.1 < 2_000_000,
{
    (t.to_epoch_seconds(), t.nanosecond / 1000)
}

/// Reads the platform's last-error slot after a clock write: an absent
/// code, or a recorded zero, means the write is taken as successful.
pub fn set_call_failed(code: Option<i32>) -> (b: bool)
    ensures
        b == match code {
            Some(c) => c != 0,
            None => false,
        },
{
    match code {
        Some(c) => c != 0,
        None => false,
    }
}

/// Relies on chrono::Local::now: the current local time carries normalized
/// calendar fields within chrono's year range, a sub-second part below one
/// second, and a fixed offset strictly within a day.
#[verifier::external_body]
pub fn now_local() -> (t: Timestamp)
    ensures
        t.valid(),
        t.nanosecond < 1_000_000_000,
{
    let n = chrono::Local::now();
    Timestamp {
        year: n.year(),
        month: n.month() as u8,
        day: n.day() as u8,
        hour: n.hour() as u8,
        minute: n.minute() as u8,
        second: n.second() as u8,
        nanosecond: n.nanosecond(),
        offset_seconds: n.offset().local_minus_utc(),
    }
}

/// Relies on chrono's timezone conversion (DateTime::with_timezone into
/// Local): it keeps the instant — the epoch-second count and the
/// sub-second field — while recomputing the calendar fields and offset for
/// the host's timezone; the result is again normalized, and its year moves
/// by at most one calendar day's worth from the four-digit era. The
/// time-of-day constructor accepts a folded leap second only on second 59,
/// so the timestamp must carry it there.
#[verifier::external_body]
pub fn to_local(t: &Timestamp) -> (r: Timestamp)
    requires
        t.valid(),
        t.in_era(),
        t.leap_normalized(),
    ensures
        r.valid(),
        r.epoch_seconds() == t.epoch_seconds(),
        r.nanosecond == t.nanosecond,
        -1 <= r.year <= 10000,
{
    let nd = NaiveDate::from_ymd_opt(t.year, t.month as u32, t.day as u32).unwrap();
    let nt = NaiveTime::from_hms_nano_opt(t.hour as u32, t.minute as u32, t.second as u32, t.nanosecond).unwrap();
    let off = FixedOffset::east_opt(t.offset_seconds).unwrap();
    let l = NaiveDateTime::new(nd, nt).and_local_timezone(off).unwrap().with_timezone(&Local);
    Timestamp { year: l.year(), month: l.month() as u8, day: l.day() as u8, hour: l.hour() as u8,
        minute: l.minute() as u8, second: l.second() as u8, nanosecond: l.nanosecond(),
        offset_seconds: l.offset().local_minus_utc() }
}

} // verus!

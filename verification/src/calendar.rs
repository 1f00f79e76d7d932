//! The proleptic Gregorian calendar: leap years, month lengths, and the
//! conversion from calendar fields to days and seconds since the Unix epoch.

use vstd::prelude::*;
use vstd::arithmetic::div_mod::lemma_mod_multiples_vanish;

verus! {

/// The smallest year the calendar model admits.
pub const MIN_YEAR: i32 = -262143;
/// The largest year the calendar model admits.
pub const MAX_YEAR: i32 = 262142;

pub open spec fn is_leap_year(y: int) -> bool {
    y % 4 == 0 && (y % 100 != 0 || y % 400 == 0)
}

pub open spec fn days_in_year(y: int) -> int {
    if is_leap_year(y) {
        366
    } else {
        365
    }
}

pub open spec fn days_in_month(y: int, m: int) -> int {
    if m == 2 {
        if is_leap_year(y) {
            29
        } else {
            28
        }
    } else if m == 4 || m == 6 || m == 9 || m == 11 {
        30
    } else {
        31
    }
}

/// Days from 1970-01-01 to the first day of year `y` (negative before 1970).
pub open spec fn days_before_year(y: int) -> int
    decreases (if y >= 1970 { y - 1970 } else { 1970 - y }),
{
    if y == 1970 {
        0
    } else if y > 1970 {
        days_before_year(y - 1) + days_in_year(y - 1)
    } else {
        days_before_year(y + 1) - days_in_year(y)
    }
}

/// Days from the first day of year `y` to the first day of its month `m`.
pub open spec fn days_before_month(y: int, m: int) -> int
    decreases m,
{
    if m <= 1 {
        0
    } else {
        days_before_month(y, m - 1) + days_in_month(y, m - 1)
    }
}

/// Days from 1970-01-01 to the calendar day `y`-`m`-`d`.
pub open spec fn epoch_days_of(y: int, m: int, d: int) -> int {
    days_before_year(y) + days_before_month(y, m) + (d - 1)
}

/// Seconds since 1970-01-01T00:00:00Z of the local fields `y`-`m`-`d`
/// `h`:`mi`:`s` carried at the UTC offset `off` (in seconds).
pub open spec fn epoch_seconds_of(y: int, m: int, d: int, h: int, mi: int, s: int, off: int) -> int {
    epoch_days_of(y, m, d) * 86400 + h * 3600 + mi * 60 + s - off
}

/// Day of the week of `y`-`m`-`d`, with 0 = Sunday through 6 = Saturday.
/// 1970-01-01, epoch day zero, was a Thursday (4).
pub open spec fn day_of_week_of(y: int, m: int, d: int) -> int {
    (epoch_days_of(y, m, d) + 4) % 7
}

pub proof fn lemma_days_before_year_bound(y: int)
    requires
        MIN_YEAR - 1 <= y <= MAX_YEAR + 1,
    ensures
        -97_000_000 <= days_before_year(y) <= 97_000_000,
{
    if y >= 1970 {
        lemma_days_before_year_upper(y);
    } else {
        lemma_days_before_year_lower(y);
    }
}

proof fn lemma_days_before_year_upper(y: int)
    requires
        1970 <= y,
    ensures
        0 <= days_before_year(y) <= 366 * (y - 1970),
    decreases y - 1970,
{
    if y > 1970 {
        lemma_days_before_year_upper(y - 1);
    }
}

proof fn lemma_days_before_year_lower(y: int)
    requires
        y <= 1970,
    ensures
        -366 * (1970 - y) <= days_before_year(y) <= 0,
    decreases 1970 - y,
{
    if y < 1970 {
        lemma_days_before_year_lower(y + 1);
    }
}

pub fn leap_year(y: i32) -> (r: bool)
    requires
        MIN_YEAR <= y <= MAX_YEAR,
    ensures
        r == is_leap_year(y as int),
{
    // Shift into the non-negative range by a multiple of 400 (and so of 4
    // and of 100): divisibility is unchanged.
    let z: u32 = (y + 2_097_600) as u32;
    proof {
        lemma_mod_multiples_vanish(524_400, y as int, 4);
        lemma_mod_multiples_vanish(20_976, y as int, 100);
        lemma_mod_multiples_vanish(5_244, y as int, 400);
    }
    z % 4 == 0 && (z % 100 != 0 || z % 400 == 0)
}

pub fn month_length(y: i32, m: u8) -> (r: u8)
    requires
        MIN_YEAR <= y <= MAX_YEAR,
        1 <= m <= 12,
    ensures
        r == days_in_month(y as int, m as int),
{
    if m == 2 {
        if leap_year(y) {
            29
        } else {
            28
        }
    } else if m == 4 || m == 6 || m == 9 || m == 11 {
        30
    } else {
        31
    }
}

pub fn days_before_year_exec(y: i32) -> (r: i64)
    requires
        MIN_YEAR <= y <= MAX_YEAR + 1,
    ensures
        r == days_before_year(y as int),
{
    let mut acc: i64 = 0;
    if y >= 1970 {
        let mut i: i32 = 1970;
        while i < y
            invariant
                1970 <= i <= y,
                y <= MAX_YEAR + 1,
                acc == days_before_year(i as int),
            decreases y - i,
        {
            proof {
                lemma_days_before_year_bound(i as int);
            }
            if leap_year(i) {
                acc = acc + 366;
            } else {
                acc = acc + 365;
            }
            i = i + 1;
        }
        acc
    } else {
        let mut i: i32 = 1970;
        while i > y
            invariant
                y <= i <= 1970,
                MIN_YEAR <= y,
                acc == days_before_year(i as int),
            decreases i - y,
        {
            proof {
                lemma_days_before_year_bound(i as int);
            }
            i = i - 1;
            if leap_year(i) {
                acc = acc - 366;
            } else {
                acc = acc - 365;
            }
        }
        acc
    }
}

pub fn days_before_month_exec(y: i32, m: u8) -> (r: u32)
    requires
        MIN_YEAR <= y <= MAX_YEAR,
        1 <= m <= 12,
    ensures
        r == days_before_month(y as int, m as int),
        r <= 366,
{
    let mut acc: u32 = 0;
    let mut i: u8 = 1;
    while i < m
        invariant
            1 <= i <= m <= 12,
            MIN_YEAR <= y <= MAX_YEAR,
            acc == days_before_month(y as int, i as int),
            acc <= 31 * (i - 1),
        decreases m - i,
    {
        acc = acc + month_length(y, i) as u32;
        i = i + 1;
    }
    proof {
        lemma_days_before_month_bound(y as int, m as int);
    }
    acc
}

proof fn lemma_days_before_month_bound(y: int, m: int)
    requires
        1 <= m <= 13,
    ensures
        0 <= days_before_month(y, m) <= 31 * (m - 1),
    decreases m,
{
    if m > 1 {
        lemma_days_before_month_bound(y, m - 1);
    }
}

pub fn epoch_days_exec(y: i32, m: u8, d: u8) -> (r: i64)
    requires
        MIN_YEAR <= y <= MAX_YEAR,
        1 <= m <= 12,
        1 <= d <= 31,
    ensures
        r == epoch_days_of(y as int, m as int, d as int),
        -97_000_000 <= r <= 97_000_000 + 397,
{
    proof {
        lemma_days_before_year_bound(y as int);
    }
    let by = days_before_year_exec(y);
    let bm = days_before_month_exec(y, m);
    by + bm as i64 + (d as i64 - 1)
}

} // verus!

//! A single instant: a normalized calendar date and time of day, carried at
//! a fixed UTC offset, with nanosecond resolution. An inserted leap second
//! is encoded by a sub-second field of one whole second or more.

use vstd::prelude::*;
use crate::calendar::{
    day_of_week_of, days_in_month, epoch_days_exec, epoch_seconds_of, month_length, MAX_YEAR,
    MIN_YEAR,
};

verus! {

#[derive(Clone, Copy, Debug, PartialEq, Eq, Structural)]
pub struct Timestamp {
    pub year: i32,
    /// 1 through 12.
    pub month: u8,
    /// 1 through the month's length.
    pub day: u8,
    /// 0 through 23.
    pub hour: u8,
    /// 0 through 59.
    pub minute: u8,
    /// 0 through 59.
    pub second: u8,
    /// 0 through 1_999_999_999; a value of one second or more folds an
    /// inserted leap second into the sub-second field.
    pub nanosecond: u32,
    /// Seconds east of UTC, strictly between -86_400 and 86_400.
    pub offset_seconds: i32,
}

impl Timestamp {
    /// The fields form a normalized calendar instant.
    pub open spec fn valid(self) -> bool {
        &&& MIN_YEAR <= self.year <= MAX_YEAR
        &&& 1 <= self.month <= 12
        &&& 1 <= self.day <= days_in_month(self.year as int, self.month as int)
        &&& self.hour <= 23
        &&& self.minute <= 59
        &&& self.second <= 59
        &&& self.nanosecond < 2_000_000_000
        &&& -86400 < self.offset_seconds < 86400
    }

    /// The year the textual formats carry: four decimal digits.
    pub open spec fn in_era(self) -> bool {
        0 <= self.year <= 9999
    }

    /// A folded leap second stands on the last second of a minute, where
    /// the calendar inserts it.
    pub open spec fn leap_normalized(self) -> bool {
        self.nanosecond >= 1_000_000_000 ==> self.second == 59
    }

    /// Seconds since 1970-01-01T00:00:00Z. A folded leap second does not
    /// move this count: it shares the count of the second it extends.
    pub open spec fn epoch_seconds(self) -> int {
        epoch_seconds_of(
            self.year as int,
            self.month as int,
            self.day as int,
            self.hour as int,
            self.minute as int,
            self.second as int,
            self.offset_seconds as int,
        )
    }

    /// Day of the week, 0 = Sunday through 6 = Saturday.
    pub open spec fn day_of_week(self) -> int {
        day_of_week_of(self.year as int, self.month as int, self.day as int)
    }

    pub fn is_valid(&self) -> (b: bool)
        ensures
            b == self.valid(),
    {
        MIN_YEAR <= self.year && self.year <= MAX_YEAR && 1 <= self.month && self.month <= 12
            && 1 <= self.day && self.hour <= 23 && self.minute <= 59 && self.second <= 59
            && self.nanosecond < 2_000_000_000 && -86400 < self.offset_seconds
            && self.offset_seconds < 86400 && self.day <= month_length(self.year, self.month)
    }

    pub fn is_in_era(&self) -> (b: bool)
        ensures
            b == self.in_era(),
    {
        0 <= self.year && self.year <= 9999
    }

    pub fn is_leap_normalized(&self) -> (b: bool)
        ensures
            b == self.leap_normalized(),
    {
        self.nanosecond < 1_000_000_000 || self.second == 59
    }

    pub fn to_epoch_seconds(&self) -> (r: i64)
        requires
            self.valid(),
        ensures
            r == self.epoch_seconds(),
            -8_400_000_000_000 <= r <= 8_400_000_000_000,
    {
        let days = epoch_days_exec(self.year, self.month, self.day);
        days * 86400 + (self.hour as i64) * 3600 + (self.minute as i64) * 60 + self.second as i64
            - self.offset_seconds as i64
    }

    pub fn weekday(&self) -> (r: u8)
        requires
            self.valid(),
        ensures
            r == self.day_of_week(),
            r <= 6,
    {
        let days = epoch_days_exec(self.year, self.month, self.day);
        // Shift by a positive multiple of 7 so the remainder can be taken
        // in an unsigned type: it leaves the remainder unchanged.
        let n: u64 = (days + 700_000_004) as u64;
        proof {
            let ed = crate::calendar::epoch_days_of(
                self.year as int,
                self.month as int,
                self.day as int,
            );
            vstd::arithmetic::div_mod::lemma_mod_multiples_vanish(100_000_000, ed + 4, 7);
        }
        (n % 7) as u8
    }
}

} // verus!

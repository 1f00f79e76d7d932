//! Rendering a timestamp as epoch seconds, RFC 2822 text, or RFC 3339 text.
//!
//! Both calendar formats fold an inserted leap second into the displayed
//! second (`:60`), and round the offset's stray seconds, if any, to the
//! nearest minute.

use vstd::prelude::*;
use crate::dispatch::Format;
use crate::text::{digit, fixed_digits, fixed_digits_vec, signed_dec, signed_dec_vec};
use crate::timestamp::Timestamp;

verus! {

/// The second as the calendar formats display it: a folded leap second
/// raises it by one, to 60 at the end of a minute.
pub open spec fn display_second(t: Timestamp) -> int {
    if t.nanosecond >= 1_000_000_000 {
        t.second + 1
    } else {
        t.second as int
    }
}

/// The sub-second part that remains once a folded leap second has moved
/// into the displayed second; always below one second.
pub open spec fn display_nanos(t: Timestamp) -> int {
    if t.nanosecond >= 1_000_000_000 {
        t.nanosecond - 1_000_000_000
    } else {
        t.nanosecond as int
    }
}

/// The fractional-second text: empty when zero, else a dot and three, six
/// or nine digits, as many as the value needs.
pub open spec fn frac_bytes(ns: int) -> Seq<u8> {
    if ns == 0 {
        Seq::empty()
    } else if ns % 1_000_000 == 0 {
        seq![46u8].add(fixed_digits(ns / 1_000_000, 3))
    } else if ns % 1_000 == 0 {
        seq![46u8].add(fixed_digits(ns / 1_000, 6))
    } else {
        seq![46u8].add(fixed_digits(ns, 9))
    }
}

/// A UTC offset as sign, hours and minutes, the seconds rounded to the
/// nearest minute; with or without the separating colon.
pub open spec fn offset_bytes(off: int, colon: bool) -> Seq<u8> {
    let a = if off < 0 {
        -off
    } else {
        off
    };
    let minutes = (a + 30) / 60;
    let sign: u8 = if off < 0 {
        45u8
    } else {
        43u8
    };
    if colon {
        seq![sign].add(fixed_digits(minutes / 60, 2)).push(58u8).add(fixed_digits(minutes % 60, 2))
    } else {
        seq![sign].add(fixed_digits(minutes / 60, 2)).add(fixed_digits(minutes % 60, 2))
    }
}

/// RFC 3339: `YYYY-MM-DDTHH:MM:SS`, a fraction when there is one, and the
/// offset as `+HH:MM`.
pub open spec fn rfc3339_bytes(t: Timestamp) -> Seq<u8> {
    fixed_digits(t.year as int, 4).push(45u8).add(fixed_digits(t.month as int, 2)).push(45u8).add(
        fixed_digits(t.day as int, 2),
    ).push(84u8).add(fixed_digits(t.hour as int, 2)).push(58u8).add(
        fixed_digits(t.minute as int, 2),
    ).push(58u8).add(fixed_digits(display_second(t), 2)).add(frac_bytes(display_nanos(t))).add(
        offset_bytes(t.offset_seconds as int, true),
    )
}

pub open spec fn weekday_name(d: int) -> Seq<u8> {
    if d == 0 {
        seq![83u8, 117u8, 110u8]  // Sun
    } else if d == 1 {
        seq![77u8, 111u8, 110u8]  // Mon
    } else if d == 2 {
        seq![84u8, 117u8, 101u8]  // Tue
    } else if d == 3 {
        seq![87u8, 101u8, 100u8]  // Wed
    } else if d == 4 {
        seq![84u8, 104u8, 117u8]  // Thu
    } else if d == 5 {
        seq![70u8, 114u8, 105u8]  // Fri
    } else {
        seq![83u8, 97u8, 116u8]  // Sat
    }
}

pub open spec fn month_name(m: int) -> Seq<u8> {
    if m == 1 {
        seq![74u8, 97u8, 110u8]  // Jan
    } else if m == 2 {
        seq![70u8, 101u8, 98u8]  // Feb
    } else if m == 3 {
        seq![77u8, 97u8, 114u8]  // Mar
    } else if m == 4 {
        seq![65u8, 112u8, 114u8]  // Apr
    } else if m == 5 {
        seq![77u8, 97u8, 121u8]  // May
    } else if m == 6 {
        seq![74u8, 117u8, 110u8]  // Jun
    } else if m == 7 {
        seq![74u8, 117u8, 108u8]  // Jul
    } else if m == 8 {
        seq![65u8, 117u8, 103u8]  // Aug
    } else if m == 9 {
        seq![83u8, 101u8, 112u8]  // Sep
    } else if m == 10 {
        seq![79u8, 99u8, 116u8]  // Oct
    } else if m == 11 {
        seq![78u8, 111u8, 118u8]  // Nov
    } else {
        seq![68u8, 101u8, 99u8]  // Dec
    }
}

/// The day of the month, without a leading zero.
pub open spec fn day_bytes(d: int) -> Seq<u8> {
    if d < 10 {
        seq![digit(d)]
    } else {
        fixed_digits(d, 2)
    }
}

/// RFC 2822: `Thu, 1 Jan 1970 00:00:00 +0000`.
pub open spec fn rfc2822_bytes(t: Timestamp) -> Seq<u8> {
    weekday_name(t.day_of_week()).push(44u8).push(32u8).add(day_bytes(t.day as int)).push(
        32u8,
    ).add(month_name(t.month as int)).push(32u8).add(fixed_digits(t.year as int, 4)).push(
        32u8,
    ).add(fixed_digits(t.hour as int, 2)).push(58u8).add(fixed_digits(t.minute as int, 2)).push(
        58u8,
    ).add(fixed_digits(display_second(t), 2)).push(32u8).add(
        offset_bytes(t.offset_seconds as int, false),
    )
}

/// Epoch seconds, in minimal signed decimal text.
pub open spec fn timestamp_bytes(t: Timestamp) -> Seq<u8> {
    signed_dec(t.epoch_seconds())
}

/// What rendering under a format selector yields.
pub open spec fn rendered_bytes(t: Timestamp, f: Format) -> Seq<u8> {
    match f {
        Format::Timestamp => timestamp_bytes(t),
        Format::Rfc2822 => rfc2822_bytes(t),
        Format::Rfc3339 => rfc3339_bytes(t),
    }
}

/// The displayed second and the remaining sub-second part.
pub fn display_parts(t: &Timestamp) -> (r: (u32, u32))
    requires
        t.valid(),
    ensures
        r.0 == display_second(*t),
        r.1 == display_nanos(*t),
        r.0 <= 60,
        r.1 < 1_000_000_000,
{
    if t.nanosecond >= 1_000_000_000 {
        (t.second as u32 + 1, t.nanosecond - 1_000_000_000)
    } else {
        (t.second as u32, t.nanosecond)
    }
}

fn frac_vec(ns: u32) -> (r: Vec<u8>)
    requires
        ns < 1_000_000_000,
    ensures
        r@ == frac_bytes(ns as int),
{
    if ns == 0 {
        let r: Vec<u8> = Vec::new();
        assert(r@ =~= frac_bytes(0));
        r
    } else if ns % 1_000_000 == 0 {
        let mut r: Vec<u8> = Vec::new();
        r.push(46);
        assert(r@ =~= seq![46u8]);
        let mut d = fixed_digits_vec(ns / 1_000_000, 3);
        r.append(&mut d);
        r
    } else if ns % 1_000 == 0 {
        let mut r: Vec<u8> = Vec::new();
        r.push(46);
        assert(r@ =~= seq![46u8]);
        let mut d = fixed_digits_vec(ns / 1_000, 6);
        r.append(&mut d);
        r
    } else {
        let mut r: Vec<u8> = Vec::new();
        r.push(46);
        assert(r@ =~= seq![46u8]);
        let mut d = fixed_digits_vec(ns, 9);
        r.append(&mut d);
        r
    }
}

fn offset_vec(off: i32, colon: bool) -> (r: Vec<u8>)
    requires
        -86400 < off < 86400,
    ensures
        r@ == offset_bytes(off as int, colon),
{
    let a: u32 = if off < 0 {
        (0 - off) as u32
    } else {
        off as u32
    };
    let minutes: u32 = (a + 30) / 60;
    let mut r: Vec<u8> = Vec::new();
    if off < 0 {
        r.push(45);
        assert(r@ =~= seq![45u8]);
    } else {
        r.push(43);
        assert(r@ =~= seq![43u8]);
    }
    let mut h = fixed_digits_vec(minutes / 60, 2);
    r.append(&mut h);
    if colon {
        r.push(58);
    }
    let mut m = fixed_digits_vec(minutes % 60, 2);
    r.append(&mut m);
    r
}

fn weekday_name_vec(d: u8) -> (r: Vec<u8>)
    requires
        d <= 6,
    ensures
        r@ == weekday_name(d as int),
{
    let mut r: Vec<u8> = Vec::new();
    if d == 0 {
        r.push(83);
        r.push(117);
        r.push(110);
        assert(r@ =~= weekday_name(0));
    } else if d == 1 {
        r.push(77);
        r.push(111);
        r.push(110);
        assert(r@ =~= weekday_name(1));
    } else if d == 2 {
        r.push(84);
        r.push(117);
        r.push(101);
        assert(r@ =~= weekday_name(2));
    } else if d == 3 {
        r.push(87);
        r.push(101);
        r.push(100);
        assert(r@ =~= weekday_name(3));
    } else if d == 4 {
        r.push(84);
        r.push(104);
        r.push(117);
        assert(r@ =~= weekday_name(4));
    } else if d == 5 {
        r.push(70);
        r.push(114);
        r.push(105);
        assert(r@ =~= weekday_name(5));
    } else {
        r.push(83);
        r.push(97);
        r.push(116);
        assert(r@ =~= weekday_name(6));
    }
    r
}

fn month_name_vec(m: u8) -> (r: Vec<u8>)
    requires
        1 <= m <= 12,
    ensures
        r@ == month_name(m as int),
{
    let mut r: Vec<u8> = Vec::new();
    if m == 1 {
        r.push(74);
        r.push(97);
        r.push(110);
        assert(r@ =~= month_name(1));
    } else if m == 2 {
        r.push(70);
        r.push(101);
        r.push(98);
        assert(r@ =~= month_name(2));
    } else if m == 3 {
        r.push(77);
        r.push(97);
        r.push(114);
        assert(r@ =~= month_name(3));
    } else if m == 4 {
        r.push(65);
        r.push(112);
        r.push(114);
        assert(r@ =~= month_name(4));
    } else if m == 5 {
        r.push(77);
        r.push(97);
        r.push(121);
        assert(r@ =~= month_name(5));
    } else if m == 6 {
        r.push(74);
        r.push(117);
        r.push(110);
        assert(r@ =~= month_name(6));
    } else if m == 7 {
        r.push(74);
        r.push(117);
        r.push(108);
        assert(r@ =~= month_name(7));
    } else if m == 8 {
        r.push(65);
        r.push(117);
        r.push(103);
        assert(r@ =~= month_name(8));
    } else if m == 9 {
        r.push(83);
        r.push(101);
        r.push(112);
        assert(r@ =~= month_name(9));
    } else if m == 10 {
        r.push(79);
        r.push(99);
        r.push(116);
        assert(r@ =~= month_name(10));
    } else if m == 11 {
        r.push(78);
        r.push(111);
        r.push(118);
        assert(r@ =~= month_name(11));
    } else {
        r.push(68);
        r.push(101);
        r.push(99);
        assert(r@ =~= month_name(12));
    }
    r
}

fn day_vec(d: u8) -> (r: Vec<u8>)
    requires
        1 <= d <= 31,
    ensures
        r@ == day_bytes(d as int),
{
    if d < 10 {
        let mut r: Vec<u8> = Vec::new();
        r.push(48 + d);
        assert(r@ =~= seq![digit(d as int)]);
        r
    } else {
        fixed_digits_vec(d as u32, 2)
    }
}

pub fn render_rfc3339(t: &Timestamp) -> (r: Vec<u8>)
    requires
        t.valid(),
        t.in_era(),
    ensures
        r@ == rfc3339_bytes(*t),
{
    let mut r = fixed_digits_vec(t.year as u32, 4);
    r.push(45);
    let mut p = fixed_digits_vec(t.month as u32, 2);
    r.append(&mut p);
    r.push(45);
    let mut p = fixed_digits_vec(t.day as u32, 2);
    r.append(&mut p);
    r.push(84);
    let mut p = fixed_digits_vec(t.hour as u32, 2);
    r.append(&mut p);
    r.push(58);
    let mut p = fixed_digits_vec(t.minute as u32, 2);
    r.append(&mut p);
    r.push(58);
    let parts = display_parts(t);
    let mut p = fixed_digits_vec(parts.0, 2);
    r.append(&mut p);
    let mut p = frac_vec(parts.1);
    r.append(&mut p);
    let mut p = offset_vec(t.offset_seconds, true);
    r.append(&mut p);
    r
}

pub fn render_rfc2822(t: &Timestamp) -> (r: Vec<u8>)
    requires
        t.valid(),
        t.in_era(),
    ensures
        r@ == rfc2822_bytes(*t),
{
    let mut r = weekday_name_vec(t.weekday());
    r.push(44);
    r.push(32);
    let mut p = day_vec(t.day);
    r.append(&mut p);
    r.push(32);
    let mut p = month_name_vec(t.month);
    r.append(&mut p);
    r.push(32);
    let mut p = fixed_digits_vec(t.year as u32, 4);
    r.append(&mut p);
    r.push(32);
    let mut p = fixed_digits_vec(t.hour as u32, 2);
    r.append(&mut p);
    r.push(58);
    let mut p = fixed_digits_vec(t.minute as u32, 2);
    r.append(&mut p);
    r.push(58);
    let parts = display_parts(t);
    let mut p = fixed_digits_vec(parts.0, 2);
    r.append(&mut p);
    r.push(32);
    let mut p = offset_vec(t.offset_seconds, false);
    r.append(&mut p);
    r
}

pub fn render_timestamp(t: &Timestamp) -> (r: Vec<u8>)
    requires
        t.valid(),
    ensures
        r@ == timestamp_bytes(*t),
{
    let secs = t.to_epoch_seconds();
    signed_dec_vec(secs)
}

/// Renders under the chosen format. The calendar formats carry a
/// four-digit year, so they ask for one.
pub fn render(t: &Timestamp, f: Format) -> (r: Vec<u8>)
    requires
        t.valid(),
        f != Format::Timestamp ==> t.in_era(),
    ensures
        r@ == rendered_bytes(*t, f),
{
    match f {
        Format::Timestamp => render_timestamp(t),
        Format::Rfc2822 => render_rfc2822(t),
        Format::Rfc3339 => render_rfc3339(t),
    }
}

} // verus!

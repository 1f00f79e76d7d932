//! The laws that tie rendering and parsing together: rendered text matches
//! its format's grammar, and parsing a rendering gives the instant back, to
//! the precision the format carries.

use vstd::prelude::*;
use vstd::arithmetic::div_mod::{lemma_fundamental_div_mod, lemma_fundamental_div_mod_converse};
use crate::dispatch::Format;
use crate::parse::{
    assemble, digit_at, frac_width, offset_at, parse_rfc2822_spec, parse_rfc3339_spec, run_at,
    val_at,
};
use crate::render::{
    day_bytes, display_nanos, display_second, frac_bytes, month_name, offset_bytes, rendered_bytes,
    rfc2822_bytes, rfc3339_bytes, timestamp_bytes, weekday_name,
};
use crate::text::{
    dec_digits, digits_val, fixed_digits, is_digit, is_digit_run, lemma_dec_digits,
    lemma_fixed_digits, lemma_fixed_digits_len, lemma_pow10_values, pow10,
};
use crate::timestamp::Timestamp;

verus! {

/// A digit field of `s`: `w` digits at `i` carrying the value `v`.
proof fn lemma_field(s: Seq<u8>, i: int, v: int, w: nat)
    requires
        0 <= i,
        i + w <= s.len(),
        0 <= v < pow10(w),
        s.subrange(i, i + w as int) == fixed_digits(v, w),
    ensures
        run_at(s, i, w as int),
        val_at(s, i, w as int) == v,
{
    lemma_fixed_digits(v, w);
    assert forall|j: int| i <= j < i + w implies is_digit(s[j]) by {
        assert(s[j] == s.subrange(i, i + w as int)[j - i]);
    }
}

/// The offset an offset rendering reads back as: the stray seconds
/// rounded to the nearest minute.
pub open spec fn rounded_offset(off: int) -> int {
    let a = if off < 0 {
        -off
    } else {
        off
    };
    let m = (a + 30) / 60;
    if off < 0 {
        -(60 * m)
    } else {
        60 * m
    }
}

/// A whole-minute offset reads back as itself.
proof fn lemma_rounded_offset_exact(off: int)
    requires
        -86400 < off < 86400,
        off % 60 == 0,
    ensures
        rounded_offset(off) == off,
{
    let a = if off < 0 {
        -off
    } else {
        off
    };
    let q = off / 60;
    lemma_fundamental_div_mod(off, 60);
    if off < 0 {
        lemma_fundamental_div_mod_converse(a, 60, -q, 0);
    }
    let k = a / 60;
    lemma_fundamental_div_mod(a, 60);
    lemma_fundamental_div_mod_converse(a + 30, 60, k, 30);
}

/// Parsing reads an offset rendering back as the rounded offset, for
/// every offset whose rounding stays below 24 hours.
proof fn lemma_offset_read_back(s: Seq<u8>, p: int, off: int, colon: bool)
    requires
        0 <= p,
        s.len() == p + (if colon {
            6int
        } else {
            5int
        }),
        -86370 < off < 86370,
        s.subrange(p, s.len() as int) == offset_bytes(off, colon),
    ensures
        offset_at(s, p, colon) == Some(rounded_offset(off)),
{
    lemma_pow10_values();
    let a = if off < 0 {
        -off
    } else {
        off
    };
    let minutes = (a + 30) / 60;
    let k = minutes;
    lemma_fundamental_div_mod(a + 30, 60);
    let hh = k / 60;
    let mm = k % 60;
    lemma_fundamental_div_mod(k, 60);
    assert(k <= 1439);
    assert(hh <= 23);
    let ob = offset_bytes(off, colon);
    let sign: u8 = if off < 0 {
        45u8
    } else {
        43u8
    };
    let fh = fixed_digits(hh, 2);
    let fm = fixed_digits(mm, 2);
    lemma_fixed_digits_len(hh, 2);
    lemma_fixed_digits_len(mm, 2);
    if colon {
        assert(ob == seq![sign].add(fh).push(58u8).add(fm));
    } else {
        assert(ob == seq![sign].add(fh).add(fm));
    }
    assert(ob.len() == (if colon {
        6int
    } else {
        5int
    }));
    assert forall|j: int| 0 <= j < ob.len() implies s[p + j] == ob[j] by {
        assert(s.subrange(p, s.len() as int)[j] == s[p + j]);
    }
    assert(s.subrange(p, s.len() as int)[0] == s[p]);
    assert(ob[0] == sign);
    assert(s[p] == sign);
    assert forall|j: int| 0 <= j < 2 implies s.subrange(p + 1, p + 3)[j] == fh[j] by {
        assert(s.subrange(p, s.len() as int)[1 + j] == s[p + 1 + j]);
        assert(ob[1 + j] == fh[j]);
    }
    assert(s.subrange(p + 1, p + 3) =~= fh);
    lemma_field(s, p + 1, hh, 2);
    let mp: int = if colon {
        p + 4
    } else {
        p + 3
    };
    if colon {
        assert(s.subrange(p, s.len() as int)[3] == s[p + 3]);
        assert(ob[3] == 58);
        assert(s[p + 3] == 58);
    }
    assert forall|j: int| 0 <= j < 2 implies s.subrange(mp, mp + 2)[j] == fm[j] by {
        assert(s.subrange(p, s.len() as int)[mp - p + j] == s[mp + j]);
        assert(ob[mp - p + j] == fm[j]);
    }
    assert(s.subrange(mp, mp + 2) =~= fm);
    lemma_field(s, mp, mm, 2);
    assert(hh * 3600 + mm * 60 == 60 * k);
}

/// What RFC 3339 text written for `t` denotes when read back: the offset
/// rounded to the minute the text can carry, and a leap second folded on
/// an earlier second pushed into the displayed second, since only `:60`
/// folds back.
pub open spec fn rfc3339_reading(t: Timestamp) -> Timestamp {
    let shift = t.nanosecond >= 1_000_000_000 && t.second < 59;
    Timestamp {
        second: (if shift {
            t.second + 1
        } else {
            t.second as int
        }) as u8,
        nanosecond: (if shift {
            t.nanosecond - 1_000_000_000
        } else {
            t.nanosecond as int
        }) as u32,
        offset_seconds: rounded_offset(t.offset_seconds as int) as i32,
        ..t
    }
}

/// Parsing reads an RFC 3339 rendering back as `rfc3339_reading`, for
/// every timestamp whose offset rounds to below 24 hours.
#[verifier::rlimit(60)]
pub proof fn lemma_rfc3339_reading(t: Timestamp)
    requires
        t.valid(),
        t.in_era(),
        -86370 < t.offset_seconds < 86370,
    ensures
        parse_rfc3339_spec(rfc3339_bytes(t)) == Some(rfc3339_reading(t)),
{
    lemma_pow10_values();
    let y = t.year as int;
    let mo = t.month as int;
    let d = t.day as int;
    let h = t.hour as int;
    let mi = t.minute as int;
    let ds = display_second(t);
    let dn = display_nanos(t);
    let off = t.offset_seconds as int;
    let y4 = fixed_digits(y, 4);
    let m2 = fixed_digits(mo, 2);
    let d2 = fixed_digits(d, 2);
    let h2 = fixed_digits(h, 2);
    let mi2 = fixed_digits(mi, 2);
    let s2 = fixed_digits(ds, 2);
    let fb = frac_bytes(dn);
    let ob = offset_bytes(off, true);
    lemma_fixed_digits(y, 4);
    lemma_fixed_digits(mo, 2);
    lemma_fixed_digits(d, 2);
    lemma_fixed_digits(h, 2);
    lemma_fixed_digits(mi, 2);
    lemma_fixed_digits(ds, 2);
    let a = if off < 0 {
        -off
    } else {
        off
    };
    let minutes = (a + 30) / 60;
    lemma_fixed_digits_len(minutes / 60, 2);
    lemma_fixed_digits_len(minutes % 60, 2);
    assert(ob.len() == 6);
    assert(ob[0] == 43 || ob[0] == 45);
    let s = rfc3339_bytes(t);
    let pre = y4.push(45u8).add(m2).push(45u8).add(d2).push(84u8).add(h2).push(58u8).add(
        mi2,
    ).push(58u8).add(s2);
    assert(pre.len() == 19);
    assert(s == pre.add(fb).add(ob));
    let fl = fb.len() as int;
    assert(s.len() == 19 + fl + 6);
    assert forall|i: int| 0 <= i < 19 implies s[i] == pre[i] by {}
    assert(s.subrange(0, 4) =~= y4);
    lemma_field(s, 0, y, 4);
    assert(s[4] == 45);
    assert(s.subrange(5, 7) =~= m2);
    lemma_field(s, 5, mo, 2);
    assert(s[7] == 45);
    assert(s.subrange(8, 10) =~= d2);
    lemma_field(s, 8, d, 2);
    assert(s[10] == 84);
    assert(s.subrange(11, 13) =~= h2);
    lemma_field(s, 11, h, 2);
    assert(s[13] == 58);
    assert(s.subrange(14, 16) =~= mi2);
    lemma_field(s, 14, mi, 2);
    assert(s[16] == 58);
    assert(s.subrange(17, 19) =~= s2);
    lemma_field(s, 17, ds, 2);
    // The fraction and the position where the offset begins.
    let p: int = if dn == 0 {
        19
    } else {
        20 + frac_width(s, 19)
    };
    if dn == 0 {
        assert(fl == 0);
        assert(s[19] == ob[0]);
        assert(frac_width(s, 19) == 0);
    } else if dn % 1_000_000 == 0 {
        let v = dn / 1_000_000;
        lemma_fundamental_div_mod(dn, 1_000_000);
        assert(fb == seq![46u8].add(fixed_digits(v, 3)));
        lemma_fixed_digits(v, 3);
        assert(fl == 4);
        assert(s[19] == fb[0]);
        assert(s.subrange(20, 23) =~= fixed_digits(v, 3));
        lemma_field(s, 20, v, 3);
        assert(s[23] == ob[0]);
        assert(!digit_at(s, 23));
        crate::parse::lemma_digit_run_len_exact(s, 20, 3);
        assert(frac_width(s, 19) == 3);
        assert(val_at(s, 20, 3) * pow10(6) == dn);
    } else if dn % 1_000 == 0 {
        let v = dn / 1_000;
        lemma_fundamental_div_mod(dn, 1_000);
        assert(fb == seq![46u8].add(fixed_digits(v, 6)));
        lemma_fixed_digits(v, 6);
        assert(fl == 7);
        assert(s[19] == fb[0]);
        assert(s.subrange(20, 26) =~= fixed_digits(v, 6));
        lemma_field(s, 20, v, 6);
        assert(s[26] == ob[0]);
        assert(!digit_at(s, 26));
        crate::parse::lemma_digit_run_len_exact(s, 20, 6);
        assert(frac_width(s, 19) == 6);
        assert(val_at(s, 20, 6) * pow10(3) == dn);
    } else {
        assert(fb == seq![46u8].add(fixed_digits(dn, 9)));
        lemma_fixed_digits(dn, 9);
        assert(fl == 10);
        assert(s[19] == fb[0]);
        assert(s.subrange(20, 29) =~= fixed_digits(dn, 9));
        lemma_field(s, 20, dn, 9);
        assert(s[29] == ob[0]);
        assert(!digit_at(s, 29));
        crate::parse::lemma_digit_run_len_exact(s, 20, 9);
        assert(frac_width(s, 19) == 9);
        assert(val_at(s, 20, 9) * pow10(0) == dn);
    }
    // The offset.
    assert(p + 6 == s.len());
    assert(s[p] == ob[0]);
    assert(s.subrange(p, s.len() as int) =~= ob);
    lemma_offset_read_back(s, p, off, true);
    let ro = rounded_offset(off);
    assert(-86400 < ro < 86400) by {
        lemma_fundamental_div_mod(a + 30, 60);
    }
    // The fields assemble back into the reading.
    assert(parse_rfc3339_spec(s) == assemble(y, mo, d, h, mi, ds, dn, ro));
    assert(assemble(y, mo, d, h, mi, ds, dn, ro) == Some(rfc3339_reading(t)));
}

/// Parsing recovers a timestamp from its RFC 3339 rendering, exactly: the
/// format carries the full sub-second field. The offset must lie on a
/// whole minute — the text has no place for stray seconds — and a folded
/// leap second must sit on second 59, where the text writes `:60`.
pub proof fn lemma_rfc3339_round_trip(t: Timestamp)
    requires
        t.valid(),
        t.in_era(),
        t.offset_seconds % 60 == 0,
        t.leap_normalized(),
    ensures
        parse_rfc3339_spec(rfc3339_bytes(t)) == Some(t),
{
    assert(-86370 < t.offset_seconds < 86370) by {
        lemma_fundamental_div_mod(t.offset_seconds as int, 60);
    }
    lemma_rfc3339_reading(t);
    lemma_rounded_offset_exact(t.offset_seconds as int);
    assert(!(t.nanosecond >= 1_000_000_000 && t.second < 59));
    assert(rfc3339_reading(t).second == t.second);
    assert(rfc3339_reading(t).nanosecond == t.nanosecond);
    assert(rfc3339_reading(t).offset_seconds == t.offset_seconds);
    assert(rfc3339_reading(t) == t);
}

/// What a timestamp loses in RFC 2822 text: the sub-second field is not
/// written, so only a folded leap second's whole-second mark survives.
pub open spec fn rfc2822_precision(t: Timestamp) -> Timestamp {
    Timestamp {
        nanosecond: if t.nanosecond >= 1_000_000_000 {
            1_000_000_000u32
        } else {
            0u32
        },
        ..t
    }
}

/// Minimal signed decimal text: digits, an optional leading minus on a
/// nonzero value, and no leading zero.
pub open spec fn is_integer_text(s: Seq<u8>) -> bool {
    let d = if s.len() > 0 && s[0] == 45 {
        s.subrange(1, s.len() as int)
    } else {
        s
    };
    &&& s.len() > 0
    &&& d.len() > 0
    &&& is_digit_run(d, 0, d.len() as int)
    &&& (d.len() > 1 ==> d[0] != 48)
    &&& (s[0] == 45 ==> digits_val(d) > 0)
}

/// Rendered epoch seconds are integer text.
pub proof fn lemma_timestamp_text(t: Timestamp)
    requires
        t.valid(),
    ensures
        is_integer_text(timestamp_bytes(t)),
{
    let n = t.epoch_seconds();
    let s = timestamp_bytes(t);
    if n < 0 {
        lemma_dec_digits(-n);
        assert(s == seq![45u8].add(dec_digits(-n)));
        let d = dec_digits(-n);
        assert(s[0] == 45);
        assert(s.subrange(1, s.len() as int) =~= d);
        assert forall|j: int| 0 <= j < d.len() implies is_digit(d[j]) by {}
    } else {
        lemma_dec_digits(n);
        assert(s == dec_digits(n));
        assert(is_digit(s[0]));
        assert(s[0] != 45);
        if s.len() > 1 {
            assert(n >= 1) by {
                if n == 0 {
                    assert(dec_digits(0) =~= seq![48u8]);
                }
            }
        }
    }
}

/// Rendering under any selector yields text in that selector's grammar:
/// integer text for epoch seconds, and text the format's own parser
/// accepts for the two calendar formats. The calendar formats ask only
/// that the offset round to below 24 hours; every real-world offset does.
pub proof fn lemma_render_matches_format(t: Timestamp, f: Format)
    requires
        t.valid(),
        f != Format::Timestamp ==> t.in_era() && -86370 < t.offset_seconds < 86370,
    ensures
        f == Format::Timestamp ==> is_integer_text(rendered_bytes(t, f)),
        f == Format::Rfc3339 ==> parse_rfc3339_spec(rendered_bytes(t, f)) is Some,
        f == Format::Rfc2822 ==> parse_rfc2822_spec(rendered_bytes(t, f)) is Some,
{
    match f {
        Format::Timestamp => lemma_timestamp_text(t),
        Format::Rfc3339 => lemma_rfc3339_reading(t),
        Format::Rfc2822 => lemma_rfc2822_reading(t),
    }
}

/// What RFC 2822 text written for `t` denotes when read back: the offset
/// rounded to the minute, the sub-second field flattened to the displayed
/// leap-second mark alone.
pub open spec fn rfc2822_reading(t: Timestamp) -> Timestamp {
    let ds = display_second(t);
    Timestamp {
        second: (if ds == 60 {
            59int
        } else {
            ds
        }) as u8,
        nanosecond: (if ds == 60 {
            1_000_000_000int
        } else {
            0int
        }) as u32,
        offset_seconds: rounded_offset(t.offset_seconds as int) as i32,
        ..t
    }
}

/// Parsing reads an RFC 2822 rendering back as `rfc2822_reading`, for
/// every timestamp whose offset rounds to below 24 hours.
#[verifier::rlimit(60)]
pub proof fn lemma_rfc2822_reading(t: Timestamp)
    requires
        t.valid(),
        t.in_era(),
        -86370 < t.offset_seconds < 86370,
    ensures
        parse_rfc2822_spec(rfc2822_bytes(t)) == Some(rfc2822_reading(t)),
{
    lemma_pow10_values();
    let y = t.year as int;
    let mo = t.month as int;
    let d = t.day as int;
    let h = t.hour as int;
    let mi = t.minute as int;
    let ds = display_second(t);
    let off = t.offset_seconds as int;
    let wd = t.day_of_week();
    let wn = weekday_name(wd);
    let db = day_bytes(d);
    let mn = month_name(mo);
    let y4 = fixed_digits(y, 4);
    let h2 = fixed_digits(h, 2);
    let mi2 = fixed_digits(mi, 2);
    let s2 = fixed_digits(ds, 2);
    let ob = offset_bytes(off, false);
    lemma_fixed_digits(y, 4);
    lemma_fixed_digits(h, 2);
    lemma_fixed_digits(mi, 2);
    lemma_fixed_digits(ds, 2);
    let a = if off < 0 {
        -off
    } else {
        off
    };
    let minutes = (a + 30) / 60;
    lemma_fixed_digits_len(minutes / 60, 2);
    lemma_fixed_digits_len(minutes % 60, 2);
    assert(ob.len() == 5);
    assert(ob[0] == 43 || ob[0] == 45);
    assert(wn.len() == 3);
    assert(mn.len() == 3);
    let dw: int = if d < 10 {
        1
    } else {
        2
    };
    if d >= 10 {
        lemma_fixed_digits(d, 2);
    }
    assert(db.len() == dw);
    assert(is_digit(db[0]));
    let s = rfc2822_bytes(t);
    let b = 5 + dw;
    let pre = wn.push(44u8).push(32u8).add(db).push(32u8).add(mn).push(32u8).add(y4).push(
        32u8,
    ).add(h2).push(58u8).add(mi2).push(58u8).add(s2).push(32u8);
    assert(pre.len() == b + 19);
    assert(s == pre.add(ob));
    assert(s.len() == b + 24);
    assert forall|i: int| 0 <= i < b + 19 implies s[i] == pre[i] by {}
    // The weekday name and its agreement with the date.
    assert(0 <= wd <= 6);
    assert(s[0] == wn[0] && s[1] == wn[1] && s[2] == wn[2]);
    assert(crate::parse::weekday_of_name(wn[0], wn[1], wn[2]) == wd);
    assert(s[3] == 44);
    assert(s[4] == 32);
    // The day, one or two digits.
    if d < 10 {
        assert(s[5] == db[0]);
        assert(digit_at(s, 5));
        assert(s[6] == 32);
        assert(!digit_at(s, 6));
        crate::text::lemma_digits_val_one(s, 5);
        assert(val_at(s, 5, 1) == d);
    } else {
        assert(s.subrange(5, 7) =~= fixed_digits(d, 2));
        lemma_field(s, 5, d, 2);
        assert(digit_at(s, 5));
        assert(digit_at(s, 6));
    }
    // The month name.
    assert(s[b] == 32);
    assert(s[b + 1] == mn[0] && s[b + 2] == mn[1] && s[b + 3] == mn[2]);
    assert(crate::parse::month_of_name(mn[0], mn[1], mn[2]) == mo);
    assert(s[b + 4] == 32);
    // Year and time fields.
    assert(s.subrange(b + 5, b + 9) =~= y4);
    lemma_field(s, b + 5, y, 4);
    assert(s[b + 9] == 32);
    assert(!digit_at(s, b + 9));
    crate::parse::lemma_digit_run_len_exact(s, b + 5, 4);
    assert(s.subrange(b + 10, b + 12) =~= h2);
    lemma_field(s, b + 10, h, 2);
    assert(s[b + 12] == 58);
    assert(s.subrange(b + 13, b + 15) =~= mi2);
    lemma_field(s, b + 13, mi, 2);
    assert(s[b + 15] == 58);
    assert(s.subrange(b + 16, b + 18) =~= s2);
    lemma_field(s, b + 16, ds, 2);
    assert(s[b + 18] == 32);
    // The offset.
    assert(s.subrange(b + 19, s.len() as int) =~= ob);
    lemma_offset_read_back(s, b + 19, off, false);
    let ro = rounded_offset(off);
    assert(-86400 < ro < 86400) by {
        lemma_fundamental_div_mod(a + 30, 60);
    }
    assert(crate::parse::zone_at(s, b + 19) == Some(ro));
    // The fields assemble back, with the sub-second field flattened.
    assert(crate::parse::wd_prefix(s));
    let t2 = rfc2822_reading(t);
    assert(assemble(y, mo, d, h, mi, ds, 0, ro) == Some(t2));
    assert(t2.day_of_week() == wd);
    assert(parse_rfc2822_spec(s) == Some(t2));
}

/// Parsing recovers a timestamp from its RFC 2822 rendering, to the
/// precision the format carries: the sub-second field flattens to the
/// leap-second mark alone. The offset must lie on a whole minute, and a
/// folded leap second on second 59, as for RFC 3339.
#[verifier::rlimit(60)]
pub proof fn lemma_rfc2822_round_trip(t: Timestamp)
    requires
        t.valid(),
        t.in_era(),
        t.offset_seconds % 60 == 0,
        t.leap_normalized(),
    ensures
        parse_rfc2822_spec(rfc2822_bytes(t)) == Some(rfc2822_precision(t)),
{
    assert(-86370 < t.offset_seconds < 86370) by {
        lemma_fundamental_div_mod(t.offset_seconds as int, 60);
    }
    lemma_rfc2822_reading(t);
    lemma_rounded_offset_exact(t.offset_seconds as int);
    assert(rfc2822_reading(t) == rfc2822_precision(t));
}

} // verus!


//! Parsing RFC 3339 and RFC 2822 text back into a timestamp.
//!
//! RFC 3339 text has fixed field positions, either letter case or a space
//! between date and time, an optional fraction of any width whose digits
//! past the ninth are consumed without value, and a numeric offset or a
//! zone letter. RFC 2822 text has an optional, checked weekday name, a
//! one- or two-digit day, a two- to four-digit year, optional seconds, and
//! a numeric offset or a legacy zone name, the names in either case. In
//! both, a `:60` folds an inserted leap second back into the sub-second
//! field. Tokens are separated by single spaces.

use vstd::prelude::*;
use crate::calendar::days_in_month;
use crate::calendar::month_length;
use crate::text::{digits_val, is_digit, is_digit_run, pow10, read_digits};
use crate::timestamp::Timestamp;

verus! {

/// Byte `j` exists and is a decimal digit.
pub open spec fn digit_at(s: Seq<u8>, j: int) -> bool {
    0 <= j < s.len() && is_digit(s[j])
}

/// Bytes `i` through `i + w - 1` exist and are all decimal digits.
pub open spec fn run_at(s: Seq<u8>, i: int, w: int) -> bool {
    0 <= i && i + w <= s.len() && is_digit_run(s, i, w)
}

/// The number carried by bytes `i` through `i + w - 1`.
pub open spec fn val_at(s: Seq<u8>, i: int, w: int) -> int {
    digits_val(s.subrange(i, i + w))
}

/// The length of the run of digit bytes starting at `i`.
pub open spec fn digit_run_len(s: Seq<u8>, i: int) -> int
    decreases s.len() - i,
{
    if 0 <= i && i < s.len() && is_digit(s[i]) {
        1 + digit_run_len(s, i + 1)
    } else {
        0
    }
}

/// A digit run of exactly `w` bytes at `i` is what `digit_run_len` counts.
pub proof fn lemma_digit_run_len_exact(s: Seq<u8>, i: int, w: int)
    requires
        0 <= i,
        0 <= w,
        i + w <= s.len(),
        is_digit_run(s, i, w),
        !digit_at(s, i + w),
    ensures
        digit_run_len(s, i) == w,
    decreases w,
{
    if w > 0 {
        assert(is_digit(s[i]));
        assert forall|j: int| i + 1 <= j < i + 1 + (w - 1) implies is_digit(s[j]) by {}
        lemma_digit_run_len_exact(s, i + 1, w - 1);
    }
}

/// The width of the fractional-second digit run after a dot at `i`: 0 with
/// no dot, the number of digits when there is at least one, and -1 for a
/// dot followed by none. Digits past the ninth carry no value — the
/// nanosecond field cannot hold them — but are consumed.
pub open spec fn frac_width(s: Seq<u8>, i: int) -> int {
    if !(0 <= i < s.len() && s[i] == 46) {
        0
    } else {
        let k = digit_run_len(s, i + 1);
        if k >= 1 {
            k
        } else {
            -1
        }
    }
}

/// A numeric offset `+HH:MM` or `+HHMM` at `p`, reaching the end of `s`:
/// its signed seconds, if well formed.
pub open spec fn offset_at(s: Seq<u8>, p: int, colon: bool) -> Option<int> {
    let ow: int = if colon {
        6
    } else {
        5
    };
    if s.len() != p + ow || p < 0 {
        None
    } else if !((s[p] == 43 || s[p] == 45) && run_at(s, p + 1, 2) && (if colon {
        s[p + 3] == 58 && run_at(s, p + 4, 2)
    } else {
        run_at(s, p + 3, 2)
    })) {
        None
    } else {
        let hh = val_at(s, p + 1, 2);
        let mm = if colon {
            val_at(s, p + 4, 2)
        } else {
            val_at(s, p + 3, 2)
        };
        if hh <= 23 && mm <= 59 {
            if s[p] == 45 {
                Some(-(hh * 3600 + mm * 60))
            } else {
                Some(hh * 3600 + mm * 60)
            }
        } else {
            None
        }
    }
}

/// Builds a timestamp from parsed fields, rejecting out-of-range ones. A
/// raw second of 60 folds the leap second back into the sub-second field,
/// on second 59.
pub open spec fn assemble(
    y: int,
    mo: int,
    d: int,
    h: int,
    mi: int,
    sec_raw: int,
    frac: int,
    off: int,
) -> Option<Timestamp> {
    if 0 <= y <= 9999 && 1 <= mo <= 12 && 1 <= d <= days_in_month(y, mo) && 0 <= h <= 23 && 0 <= mi
        <= 59 && 0 <= sec_raw <= 60 && 0 <= frac < 1_000_000_000 && -86400 < off < 86400 {
        Some(
            Timestamp {
                year: y as i32,
                month: mo as u8,
                day: d as u8,
                hour: h as u8,
                minute: mi as u8,
                second: (if sec_raw == 60 {
                    59
                } else {
                    sec_raw
                }) as u8,
                nanosecond: (if sec_raw == 60 {
                    1_000_000_000 + frac
                } else {
                    frac
                }) as u32,
                offset_seconds: off as i32,
            },
        )
    } else {
        None
    }
}

/// What RFC 3339 text denotes, if anything.
pub open spec fn parse_rfc3339_spec(s: Seq<u8>) -> Option<Timestamp> {
    if s.len() < 20 {
        None
    } else if !(run_at(s, 0, 4) && s[4] == 45 && run_at(s, 5, 2) && s[7] == 45 && run_at(s, 8, 2)
        && (s[10] == 84 || s[10] == 116 || s[10] == 32) && run_at(s, 11, 2) && s[13] == 58
        && run_at(s, 14, 2) && s[16] == 58 && run_at(s, 17, 2)) {
        None
    } else {
        let fw = frac_width(s, 19);
        if fw < 0 {
            None
        } else {
            let kk: int = if fw > 9 {
                9
            } else {
                fw
            };
            let frac = if fw == 0 {
                0
            } else {
                val_at(s, 20, kk) * pow10((9 - kk) as nat)
            };
            let p: int = if fw == 0 {
                19
            } else {
                20 + fw
            };
            let off_opt: Option<int> = if p < s.len() && (s[p] == 90 || s[p] == 122) {
                if s.len() == p + 1 {
                    Some(0)
                } else {
                    None
                }
            } else {
                offset_at(s, p, true)
            };
            match off_opt {
                None => None,
                Some(off) => assemble(
                    val_at(s, 0, 4),
                    val_at(s, 5, 2),
                    val_at(s, 8, 2),
                    val_at(s, 11, 2),
                    val_at(s, 14, 2),
                    val_at(s, 17, 2),
                    frac,
                    off,
                ),
            }
        }
    }
}

/// The byte with an ASCII capital letter folded to its small form.
pub open spec fn lower(b: u8) -> u8 {
    if 65 <= b <= 90 {
        (b + 32) as u8
    } else {
        b
    }
}

/// The weekday a three-letter English name denotes, in either case,
/// 0 = Sunday through 6 = Saturday; -1 for any other bytes.
pub open spec fn weekday_of_name(a0: u8, b0: u8, c0: u8) -> int {
    let a = lower(a0);
    let b = lower(b0);
    let c = lower(c0);
    if a == 115 && b == 117 && c == 110 {
        0
    } else if a == 109 && b == 111 && c == 110 {
        1
    } else if a == 116 && b == 117 && c == 101 {
        2
    } else if a == 119 && b == 101 && c == 100 {
        3
    } else if a == 116 && b == 104 && c == 117 {
        4
    } else if a == 102 && b == 114 && c == 105 {
        5
    } else if a == 115 && b == 97 && c == 116 {
        6
    } else {
        -1
    }
}

/// The month a three-letter English name denotes, in either case, 1
/// through 12; -1 for any other bytes.
pub open spec fn month_of_name(a0: u8, b0: u8, c0: u8) -> int {
    let a = lower(a0);
    let b = lower(b0);
    let c = lower(c0);
    if a == 106 && b == 97 && c == 110 {
        1
    } else if a == 102 && b == 101 && c == 98 {
        2
    } else if a == 109 && b == 97 && c == 114 {
        3
    } else if a == 97 && b == 112 && c == 114 {
        4
    } else if a == 109 && b == 97 && c == 121 {
        5
    } else if a == 106 && b == 117 && c == 110 {
        6
    } else if a == 106 && b == 117 && c == 108 {
        7
    } else if a == 97 && b == 117 && c == 103 {
        8
    } else if a == 115 && b == 101 && c == 112 {
        9
    } else if a == 111 && b == 99 && c == 116 {
        10
    } else if a == 110 && b == 111 && c == 118 {
        11
    } else if a == 100 && b == 101 && c == 99 {
        12
    } else {
        -1
    }
}

/// The text opens with a weekday name (and so with its `", "`).
pub open spec fn wd_prefix(s: Seq<u8>) -> bool {
    s.len() >= 3 && weekday_of_name(s[0], s[1], s[2]) >= 0
}

/// The year a digit run of width `w` denotes: two digits fall in 1950
/// through 2049, three in the 1900s, four stand as written.
pub open spec fn rfc2822_year(v: int, w: int) -> int {
    if w == 2 {
        if v < 50 {
            2000 + v
        } else {
            1900 + v
        }
    } else if w == 3 {
        1900 + v
    } else {
        v
    }
}

/// A single zone letter: `z`, or a military zone letter (`j` excluded),
/// all read as an unknown offset of zero.
pub open spec fn zone_letter(c: u8) -> bool {
    c == 122 || (97 <= c <= 105) || (107 <= c <= 121)
}

/// The offset a three-letter North American zone name denotes.
pub open spec fn zone3(a: u8, b: u8, c: u8) -> Option<int> {
    if a == 103 && b == 109 && c == 116 {
        Some(0int)  // gmt
    } else if a == 101 && b == 100 && c == 116 {
        Some(-14400int)  // edt
    } else if a == 101 && b == 115 && c == 116 {
        Some(-18000int)  // est
    } else if a == 99 && b == 100 && c == 116 {
        Some(-18000int)  // cdt
    } else if a == 99 && b == 115 && c == 116 {
        Some(-21600int)  // cst
    } else if a == 109 && b == 100 && c == 116 {
        Some(-21600int)  // mdt
    } else if a == 109 && b == 115 && c == 116 {
        Some(-25200int)  // mst
    } else if a == 112 && b == 100 && c == 116 {
        Some(-25200int)  // pdt
    } else if a == 112 && b == 115 && c == 116 {
        Some(-28800int)  // pst
    } else {
        None
    }
}

/// A zone at `p` reaching the end of `s`: numeric `+HHMM`, or one of the
/// legacy names, in either case.
pub open spec fn zone_at(s: Seq<u8>, p: int) -> Option<int> {
    if 0 <= p && p < s.len() && (s[p] == 43 || s[p] == 45) {
        offset_at(s, p, false)
    } else if 0 <= p && s.len() == p + 1 {
        if zone_letter(lower(s[p])) {
            Some(0int)
        } else {
            None
        }
    } else if 0 <= p && s.len() == p + 2 {
        if lower(s[p]) == 117 && lower(s[p + 1]) == 116 {
            Some(0int)  // ut
        } else {
            None
        }
    } else if 0 <= p && s.len() == p + 3 {
        zone3(lower(s[p]), lower(s[p + 1]), lower(s[p + 2]))
    } else {
        None
    }
}

/// What RFC 2822 text denotes, if anything. The weekday name is optional,
/// but when present must agree with the date; seconds are optional; the
/// year may have two, three or four digits; the zone is numeric or one of
/// the legacy names.
pub open spec fn parse_rfc2822_spec(s: Seq<u8>) -> Option<Timestamp> {
    let pfx = wd_prefix(s);
    let d0: int = if pfx {
        5
    } else {
        0
    };
    if pfx && !(s.len() >= 5 && s[3] == 44 && s[4] == 32) {
        None
    } else if !digit_at(s, d0) {
        None
    } else {
        let dw: int = if digit_at(s, d0 + 1) {
            2
        } else {
            1
        };
        let m0 = d0 + dw + 1;
        if !(m0 + 4 <= s.len() && s[m0 - 1] == 32 && s[m0 + 3] == 32) {
            None
        } else {
            let mo = month_of_name(s[m0], s[m0 + 1], s[m0 + 2]);
            let y0 = m0 + 4;
            let yw = digit_run_len(s, y0);
            if mo < 1 || yw < 2 || yw > 4 {
                None
            } else {
                let y = rfc2822_year(val_at(s, y0, yw), yw);
                let t0 = y0 + yw + 1;
                if !(t0 + 5 <= s.len() && s[t0 - 1] == 32 && run_at(s, t0, 2) && s[t0 + 2] == 58
                    && run_at(s, t0 + 3, 2)) {
                    None
                } else {
                    let sp = t0 + 5 < s.len() && s[t0 + 5] == 58;
                    if sp && !run_at(s, t0 + 6, 2) {
                        None
                    } else {
                        let sec = if sp {
                            val_at(s, t0 + 6, 2)
                        } else {
                            0
                        };
                        let z0: int = if sp {
                            t0 + 9
                        } else {
                            t0 + 6
                        };
                        if !(z0 - 1 < s.len() && s[z0 - 1] == 32) {
                            None
                        } else {
                            match zone_at(s, z0) {
                                None => None,
                                Some(off) => match assemble(
                                    y,
                                    mo,
                                    val_at(s, d0, dw),
                                    val_at(s, t0, 2),
                                    val_at(s, t0 + 3, 2),
                                    sec,
                                    0,
                                    off,
                                ) {
                                    None => None,
                                    Some(t) => if pfx && t.day_of_week() != weekday_of_name(
                                        s[0],
                                        s[1],
                                        s[2],
                                    ) {
                                        None
                                    } else {
                                        Some(t)
                                    },
                                },
                            }
                        }
                    }
                }
            }
        }
    }
}

fn is_digit_byte_at(s: &Vec<u8>, j: usize) -> (r: bool)
    ensures
        r == digit_at(s@, j as int),
{
    j < s.len() && 48 <= s[j] && s[j] <= 57
}

/// Reads a numeric offset at `p`, reaching the end of `s`.
fn read_offset(s: &Vec<u8>, p: usize, colon: bool) -> (r: Option<i32>)
    ensures
        match r {
            Some(o) => offset_at(s@, p as int, colon) == Some(o as int) && -86400 < o < 86400,
            None => offset_at(s@, p as int, colon) is None,
        },
{
    let n = s.len();
    let ow: usize = if colon {
        6
    } else {
        5
    };
    if n < ow || p != n - ow {
        return None;
    }
    if s[p] != 43 && s[p] != 45 {
        return None;
    }
    let hh = match read_digits(s, p + 1, 2) {
        Some(v) => v,
        None => {
            return None;
        },
    };
    let mm_pos: usize = if colon {
        if s[p + 3] != 58 {
            return None;
        }
        p + 4
    } else {
        p + 3
    };
    let mm = match read_digits(s, mm_pos, 2) {
        Some(v) => v,
        None => {
            return None;
        },
    };
    if hh > 23 || mm > 59 {
        return None;
    }
    let magnitude = (hh * 3600 + mm * 60) as i32;
    if s[p] == 45 {
        Some(0 - magnitude)
    } else {
        Some(magnitude)
    }
}

/// Builds a timestamp from parsed fields, rejecting out-of-range ones.
fn assemble_exec(
    y: u32,
    mo: u32,
    d: u32,
    h: u32,
    mi: u32,
    sec_raw: u32,
    frac: u32,
    off: i32,
) -> (r: Option<Timestamp>)
    requires
        y <= 9999,
        mo <= 99,
        d <= 99,
        h <= 99,
        mi <= 99,
        sec_raw <= 99,
        frac < 1_000_000_000,
        -86400 < off < 86400,
    ensures
        r == assemble(y as int, mo as int, d as int, h as int, mi as int, sec_raw as int,
            frac as int, off as int),
        match r {
            Some(t) => t.valid() && t.in_era() && t.leap_normalized(),
            None => true,
        },
{
    if 1 <= mo && mo <= 12 && 1 <= d && h <= 23 && mi <= 59 && sec_raw <= 60 {
        let dim = month_length(y as i32, mo as u8);
        if d <= dim as u32 {
            Some(
                Timestamp {
                    year: y as i32,
                    month: mo as u8,
                    day: d as u8,
                    hour: h as u8,
                    minute: mi as u8,
                    second: if sec_raw == 60 {
                        59
                    } else {
                        sec_raw as u8
                    },
                    nanosecond: if sec_raw == 60 {
                        1_000_000_000 + frac
                    } else {
                        frac
                    },
                    offset_seconds: off,
                },
            )
        } else {
            None
        }
    } else {
        None
    }
}

/// Parses RFC 3339 text.
pub fn read_rfc3339(s: &Vec<u8>) -> (r: Option<Timestamp>)
    ensures
        r == parse_rfc3339_spec(s@),
        match r {
            Some(t) => t.valid() && t.in_era() && t.leap_normalized(),
            None => true,
        },
{
    let n = s.len();
    if n < 20 {
        return None;
    }
    let y = match read_digits(s, 0, 4) {
        Some(v) => v,
        None => {
            return None;
        },
    };
    let mo = match read_digits(s, 5, 2) {
        Some(v) => v,
        None => {
            return None;
        },
    };
    let d = match read_digits(s, 8, 2) {
        Some(v) => v,
        None => {
            return None;
        },
    };
    let h = match read_digits(s, 11, 2) {
        Some(v) => v,
        None => {
            return None;
        },
    };
    let mi = match read_digits(s, 14, 2) {
        Some(v) => v,
        None => {
            return None;
        },
    };
    let sec_raw = match read_digits(s, 17, 2) {
        Some(v) => v,
        None => {
            return None;
        },
    };
    if !(s[4] == 45 && s[7] == 45 && (s[10] == 84 || s[10] == 116 || s[10] == 32) && s[13] == 58
        && s[16] == 58) {
        return None;
    }
    let frac: u32;
    let p: usize;
    proof {
        crate::text::lemma_pow10_values();
    }
    if s[19] != 46 {
        frac = 0;
        p = 19;
    } else {
        let mut k: usize = 0;
        while 20 + k < n && 48 <= s[20 + k] && s[20 + k] <= 57
            invariant
                n == s@.len(),
                20 <= n,
                k <= n - 20,
                is_digit_run(s@, 20, k as int),
                digit_run_len(s@, 20) == k + digit_run_len(s@, 20 + k),
            decreases n - 20 - k,
        {
            k = k + 1;
        }
        assert(digit_run_len(s@, 20 + k) == 0);
        if k < 1 {
            return None;
        }
        let kk: usize = if k > 9 {
            9
        } else {
            k
        };
        let v = match read_digits(s, 20, kk) {
            Some(v) => v,
            None => {
                proof {
                    assert(false);
                }
                return None;
            },
        };
        proof {
            crate::text::lemma_pow10_add(kk as nat, (9 - kk) as nat);
            crate::text::lemma_pow10_pos((9 - kk) as nat);
            vstd::arithmetic::mul::lemma_mul_strict_inequality(
                v as int,
                pow10(kk as nat),
                pow10((9 - kk) as nat),
            );
        }
        frac = v * crate::text::pow10_u32(9 - kk);
        p = 20 + k;
    }
    let off: i32;
    if p < n && (s[p] == 90 || s[p] == 122) {
        if n == p + 1 {
            off = 0;
        } else {
            return None;
        }
    } else {
        off = match read_offset(s, p, true) {
            Some(o) => o,
            None => {
                return None;
            },
        };
    }
    assemble_exec(y, mo, d, h, mi, sec_raw, frac, off)
}

fn lower_byte(b: u8) -> (r: u8)
    ensures
        r == lower(b),
{
    if 65 <= b && b <= 90 {
        b + 32
    } else {
        b
    }
}

fn weekday_of_name_exec(a0: u8, b0: u8, c0: u8) -> (r: i32)
    ensures
        r == weekday_of_name(a0, b0, c0),
{
    let a = lower_byte(a0);
    let b = lower_byte(b0);
    let c = lower_byte(c0);
    if a == 115 && b == 117 && c == 110 {
        0
    } else if a == 109 && b == 111 && c == 110 {
        1
    } else if a == 116 && b == 117 && c == 101 {
        2
    } else if a == 119 && b == 101 && c == 100 {
        3
    } else if a == 116 && b == 104 && c == 117 {
        4
    } else if a == 102 && b == 114 && c == 105 {
        5
    } else if a == 115 && b == 97 && c == 116 {
        6
    } else {
        -1
    }
}

fn month_of_name_exec(a0: u8, b0: u8, c0: u8) -> (r: i32)
    ensures
        r == month_of_name(a0, b0, c0),
{
    let a = lower_byte(a0);
    let b = lower_byte(b0);
    let c = lower_byte(c0);
    if a == 106 && b == 97 && c == 110 {
        1
    } else if a == 102 && b == 101 && c == 98 {
        2
    } else if a == 109 && b == 97 && c == 114 {
        3
    } else if a == 97 && b == 112 && c == 114 {
        4
    } else if a == 109 && b == 97 && c == 121 {
        5
    } else if a == 106 && b == 117 && c == 110 {
        6
    } else if a == 106 && b == 117 && c == 108 {
        7
    } else if a == 97 && b == 117 && c == 103 {
        8
    } else if a == 115 && b == 101 && c == 112 {
        9
    } else if a == 111 && b == 99 && c == 116 {
        10
    } else if a == 110 && b == 111 && c == 118 {
        11
    } else if a == 100 && b == 101 && c == 99 {
        12
    } else {
        -1
    }
}

fn zone3_exec(a: u8, b: u8, c: u8) -> (r: Option<i32>)
    ensures
        match r {
            Some(o) => zone3(a, b, c) == Some(o as int),
            None => zone3(a, b, c) is None,
        },
{
    if a == 103 && b == 109 && c == 116 {
        Some(0)
    } else if a == 101 && b == 100 && c == 116 {
        Some(-14400)
    } else if a == 101 && b == 115 && c == 116 {
        Some(-18000)
    } else if a == 99 && b == 100 && c == 116 {
        Some(-18000)
    } else if a == 99 && b == 115 && c == 116 {
        Some(-21600)
    } else if a == 109 && b == 100 && c == 116 {
        Some(-21600)
    } else if a == 109 && b == 115 && c == 116 {
        Some(-25200)
    } else if a == 112 && b == 100 && c == 116 {
        Some(-25200)
    } else if a == 112 && b == 115 && c == 116 {
        Some(-28800)
    } else {
        None
    }
}

/// Reads a zone at `p` reaching the end of `s`.
fn zone_exec(s: &Vec<u8>, p: usize) -> (r: Option<i32>)
    ensures
        match r {
            Some(o) => zone_at(s@, p as int) == Some(o as int) && -86400 < o < 86400,
            None => zone_at(s@, p as int) is None,
        },
{
    let n = s.len();
    if p < n && (s[p] == 43 || s[p] == 45) {
        read_offset(s, p, false)
    } else if p > n {
        None
    } else {
        let rem = n - p;
        if rem == 1 {
            let c = lower_byte(s[p]);
            if c == 122 || (97 <= c && c <= 105) || (107 <= c && c <= 121) {
                Some(0)
            } else {
                None
            }
        } else if rem == 2 {
            if lower_byte(s[p]) == 117 && lower_byte(s[p + 1]) == 116 {
                Some(0)
            } else {
                None
            }
        } else if rem == 3 {
            zone3_exec(lower_byte(s[p]), lower_byte(s[p + 1]), lower_byte(s[p + 2]))
        } else {
            None
        }
    }
}

/// Parses RFC 2822 text.
pub fn read_rfc2822(s: &Vec<u8>) -> (r: Option<Timestamp>)
    ensures
        r == parse_rfc2822_spec(s@),
        match r {
            Some(t) => t.valid() && t.in_era() && t.leap_normalized(),
            None => true,
        },
{
    let n = s.len();
    proof {
        crate::text::lemma_pow10_values();
    }
    let mut wd: i32 = -1;
    let d0: usize;
    if n >= 3 {
        let w = weekday_of_name_exec(s[0], s[1], s[2]);
        if w >= 0 {
            wd = w;
            if !(n >= 5 && s[3] == 44 && s[4] == 32) {
                return None;
            }
            d0 = 5;
        } else {
            d0 = 0;
        }
    } else {
        d0 = 0;
    }
    assert(wd_prefix(s@) == (wd >= 0));
    if !is_digit_byte_at(s, d0) {
        return None;
    }
    let two = is_digit_byte_at(s, d0 + 1);
    let day: u32;
    let dw: usize;
    if two {
        day = (s[d0] - 48) as u32 * 10 + (s[d0 + 1] - 48) as u32;
        dw = 2;
        proof {
            crate::text::lemma_digits_val_two(s@, d0 as int);
        }
    } else {
        day = (s[d0] - 48) as u32;
        dw = 1;
        proof {
            crate::text::lemma_digits_val_one(s@, d0 as int);
        }
    }
    assert(day == val_at(s@, d0 as int, dw as int));
    let m0 = d0 + dw + 1;
    if !(m0 + 4 <= n && s[m0 - 1] == 32 && s[m0 + 3] == 32) {
        return None;
    }
    let mo = month_of_name_exec(s[m0], s[m0 + 1], s[m0 + 2]);
    let y0 = m0 + 4;
    let mut yw: usize = 0;
    while y0 + yw < n && 48 <= s[y0 + yw] && s[y0 + yw] <= 57
        invariant
            n == s@.len(),
            y0 + yw <= n,
            is_digit_run(s@, y0 as int, yw as int),
            digit_run_len(s@, y0 as int) == yw + digit_run_len(s@, (y0 + yw) as int),
        decreases n - y0 - yw,
    {
        yw = yw + 1;
    }
    assert(digit_run_len(s@, (y0 + yw) as int) == 0);
    if mo < 1 || yw < 2 || yw > 4 {
        return None;
    }
    let yraw = match read_digits(s, y0, yw) {
        Some(v) => v,
        None => {
            proof {
                assert(false);
            }
            return None;
        },
    };
    let y: u32 = if yw == 2 {
        if yraw < 50 {
            2000 + yraw
        } else {
            1900 + yraw
        }
    } else if yw == 3 {
        1900 + yraw
    } else {
        yraw
    };
    let t0 = y0 + yw + 1;
    if !(t0 + 5 <= n && s[t0 - 1] == 32) {
        return None;
    }
    let h = match read_digits(s, t0, 2) {
        Some(v) => v,
        None => {
            return None;
        },
    };
    if s[t0 + 2] != 58 {
        return None;
    }
    let mi = match read_digits(s, t0 + 3, 2) {
        Some(v) => v,
        None => {
            return None;
        },
    };
    let sp = t0 + 5 < n && s[t0 + 5] == 58;
    let sec: u32;
    let z0: usize;
    if sp {
        if t0 + 8 > n {
            return None;
        }
        sec = match read_digits(s, t0 + 6, 2) {
            Some(v) => v,
            None => {
                return None;
            },
        };
        z0 = t0 + 9;
    } else {
        sec = 0;
        z0 = t0 + 6;
    }
    if !(z0 - 1 < n && s[z0 - 1] == 32) {
        return None;
    }
    let off = match zone_exec(s, z0) {
        Some(o) => o,
        None => {
            return None;
        },
    };
    let t = match assemble_exec(y, mo as u32, day, h, mi, sec, 0, off) {
        Some(t) => t,
        None => {
            return None;
        },
    };
    if wd >= 0 && t.weekday() as i32 != wd {
        None
    } else {
        Some(t)
    }
}

} // verus!

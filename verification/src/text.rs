//! Decimal text: fixed-width and minimal-width digit runs over bytes, with
//! the facts the renderers and parsers need about them.

use vstd::prelude::*;
use vstd::arithmetic::div_mod::lemma_fundamental_div_mod;

verus! {

pub open spec fn is_digit(b: u8) -> bool {
    48 <= b <= 57
}

/// The byte of a single decimal digit.
pub open spec fn digit(n: int) -> u8 {
    (48 + n) as u8
}

pub open spec fn pow10(w: nat) -> int
    decreases w,
{
    if w == 0 {
        1
    } else {
        10 * pow10((w - 1) as nat)
    }
}

/// `n` written in exactly `w` decimal digits, leading zeros kept.
pub open spec fn fixed_digits(n: int, w: nat) -> Seq<u8>
    decreases w,
{
    if w == 0 {
        Seq::empty()
    } else {
        fixed_digits(n / 10, (w - 1) as nat).push(digit(n % 10))
    }
}

/// `n >= 0` written in as many decimal digits as it needs.
pub open spec fn dec_digits(n: int) -> Seq<u8>
    decreases n,
{
    if n < 10 {
        seq![digit(n)]
    } else {
        dec_digits(n / 10).push(digit(n % 10))
    }
}

/// A possibly negative number in minimal decimal text.
pub open spec fn signed_dec(n: int) -> Seq<u8> {
    if n < 0 {
        seq![45u8].add(dec_digits(-n))
    } else {
        dec_digits(n)
    }
}

/// The value of a run of digit bytes, most significant first.
pub open spec fn digits_val(s: Seq<u8>) -> int
    decreases s.len(),
{
    if s.len() == 0 {
        0
    } else {
        digits_val(s.drop_last()) * 10 + (s.last() - 48)
    }
}

/// Bytes `i` through `i + w - 1` of `s` are all decimal digits.
pub open spec fn is_digit_run(s: Seq<u8>, i: int, w: int) -> bool {
    forall|j: int| i <= j < i + w ==> is_digit(s[j])
}

pub proof fn lemma_pow10_pos(w: nat)
    ensures
        pow10(w) >= 1,
    decreases w,
{
    if w > 0 {
        lemma_pow10_pos((w - 1) as nat);
    }
}

pub proof fn lemma_pow10_add(a: nat, b: nat)
    ensures
        pow10(a) * pow10(b) == pow10((a + b) as nat),
    decreases a,
{
    if a > 0 {
        lemma_pow10_add((a - 1) as nat, b);
        assert(pow10(a) == 10 * pow10((a - 1) as nat));
        vstd::arithmetic::mul::lemma_mul_is_associative(10, pow10((a - 1) as nat), pow10(b));
    }
}

pub proof fn lemma_pow10_le(a: nat, b: nat)
    requires
        a <= b,
    ensures
        pow10(a) <= pow10(b),
    decreases b,
{
    if a < b {
        lemma_pow10_le(a, (b - 1) as nat);
        lemma_pow10_pos((b - 1) as nat);
    }
}

pub proof fn lemma_pow10_values()
    ensures
        pow10(0) == 1,
        pow10(1) == 10,
        pow10(2) == 100,
        pow10(3) == 1_000,
        pow10(4) == 10_000,
        pow10(5) == 100_000,
        pow10(6) == 1_000_000,
        pow10(7) == 10_000_000,
        pow10(8) == 100_000_000,
        pow10(9) == 1_000_000_000,
{
    assert(pow10(0) == 1);
    assert(pow10(1) == 10);
    assert(pow10(2) == 100);
    assert(pow10(3) == 1000);
    assert(pow10(4) == 10000);
    assert(pow10(5) == 100000);
    assert(pow10(6) == 1000000);
    assert(pow10(7) == 10000000);
    assert(pow10(8) == 100000000);
    assert(pow10(9) == 1000000000);
}

pub proof fn lemma_fixed_digits(n: int, w: nat)
    requires
        0 <= n < pow10(w),
    ensures
        fixed_digits(n, w).len() == w,
        is_digit_run(fixed_digits(n, w), 0, w as int),
        digits_val(fixed_digits(n, w)) == n,
    decreases w,
{
    if w > 0 {
        let p = pow10((w - 1) as nat);
        lemma_pow10_pos((w - 1) as nat);
        assert(n / 10 < p) by {
            lemma_fundamental_div_mod(n, 10);
        };
        assert(0 <= n / 10 && 0 <= n % 10 <= 9) by {
            lemma_fundamental_div_mod(n, 10);
        };
        lemma_fixed_digits(n / 10, (w - 1) as nat);
        let head = fixed_digits(n / 10, (w - 1) as nat);
        let s = fixed_digits(n, w);
        assert(s == head.push(digit(n % 10)));
        assert(s.drop_last() =~= head);
        assert(s.last() == digit(n % 10));
        assert(digits_val(s) == (n / 10) * 10 + (n % 10));
        assert(n == 10 * (n / 10) + n % 10) by {
            lemma_fundamental_div_mod(n, 10);
        };
        assert forall|j: int| 0 <= j < w implies is_digit(s[j]) by {
            if j < w - 1 {
                assert(s[j] == head[j]);
            }
        }
    }
}

/// The width of a fixed-width digit run does not depend on the value.
pub proof fn lemma_fixed_digits_len(n: int, w: nat)
    ensures
        fixed_digits(n, w).len() == w,
    decreases w,
{
    if w > 0 {
        lemma_fixed_digits_len(n / 10, (w - 1) as nat);
    }
}

pub proof fn lemma_dec_digits(n: int)
    requires
        0 <= n,
    ensures
        dec_digits(n).len() >= 1,
        is_digit_run(dec_digits(n), 0, dec_digits(n).len() as int),
        n >= 1 ==> dec_digits(n)[0] != 48,
        n == 0 ==> dec_digits(n) =~= seq![48u8],
        digits_val(dec_digits(n)) == n,
    decreases n,
{
    if n < 10 {
        assert(dec_digits(n) == seq![digit(n)]);
        assert(dec_digits(n).drop_last() =~= Seq::<u8>::empty());
        assert(digits_val(Seq::<u8>::empty()) == 0);
    } else {
        assert(0 <= n / 10 && 1 <= n / 10 && 0 <= n % 10 <= 9) by {
            lemma_fundamental_div_mod(n, 10);
        };
        lemma_dec_digits(n / 10);
        let head = dec_digits(n / 10);
        let s = dec_digits(n);
        assert(s == head.push(digit(n % 10)));
        assert(s[0] == head[0]);
        assert(s.drop_last() =~= head);
        assert(s.last() == digit(n % 10));
        assert(digits_val(s) == digits_val(head) * 10 + (digit(n % 10) - 48));
        assert(n == 10 * (n / 10) + n % 10) by {
            lemma_fundamental_div_mod(n, 10);
        };
        assert forall|j: int| 0 <= j < s.len() implies is_digit(s[j]) by {
            if j < head.len() {
                assert(s[j] == head[j]);
            }
        }
    }
}

pub fn fixed_digits_vec(n: u32, w: usize) -> (r: Vec<u8>)
    ensures
        r@ == fixed_digits(n as int, w as nat),
        r@.len() == w,
    decreases w,
{
    if w == 0 {
        let r: Vec<u8> = Vec::new();
        assert(r@ =~= fixed_digits(n as int, 0));
        r
    } else {
        let mut r = fixed_digits_vec(n / 10, w - 1);
        r.push(48 + (n % 10) as u8);
        r
    }
}

pub fn dec_digits_vec(n: u64) -> (r: Vec<u8>)
    ensures
        r@ == dec_digits(n as int),
    decreases n,
{
    if n < 10 {
        let mut r: Vec<u8> = Vec::new();
        r.push(48 + n as u8);
        assert(r@ =~= seq![digit(n as int)]);
        r
    } else {
        let mut r = dec_digits_vec(n / 10);
        r.push(48 + (n % 10) as u8);
        r
    }
}

pub fn signed_dec_vec(n: i64) -> (r: Vec<u8>)
    requires
        -9_000_000_000_000_000_000 <= n,
    ensures
        r@ == signed_dec(n as int),
{
    if n < 0 {
        let mut r: Vec<u8> = Vec::new();
        r.push(45);
        assert(r@ =~= seq![45u8]);
        let mut tail = dec_digits_vec((-n) as u64);
        r.append(&mut tail);
        r
    } else {
        dec_digits_vec(n as u64)
    }
}

pub fn pow10_u32(e: usize) -> (r: u32)
    requires
        e <= 9,
    ensures
        r == pow10(e as nat),
{
    proof {
        lemma_pow10_values();
    }
    if e == 0 {
        1
    } else if e == 1 {
        10
    } else if e == 2 {
        100
    } else if e == 3 {
        1_000
    } else if e == 4 {
        10_000
    } else if e == 5 {
        100_000
    } else if e == 6 {
        1_000_000
    } else if e == 7 {
        10_000_000
    } else if e == 8 {
        100_000_000
    } else {
        1_000_000_000
    }
}

/// The value of two digit bytes at `i`, spelled out.
pub proof fn lemma_digits_val_two(s: Seq<u8>, i: int)
    requires
        0 <= i,
        i + 2 <= s.len(),
    ensures
        digits_val(s.subrange(i, i + 2)) == (s[i] - 48) * 10 + (s[i + 1] - 48),
{
    lemma_digits_val_one(s, i);
    let sub2 = s.subrange(i, i + 2);
    let sub1 = s.subrange(i, i + 1);
    assert(sub2.drop_last() =~= sub1);
    assert(sub2.last() == s[i + 1]);
    assert(digits_val(sub2) == digits_val(sub1) * 10 + (s[i + 1] - 48));
}

/// The value of one digit byte at `i`, spelled out.
pub proof fn lemma_digits_val_one(s: Seq<u8>, i: int)
    requires
        0 <= i,
        i + 1 <= s.len(),
    ensures
        digits_val(s.subrange(i, i + 1)) == s[i] - 48,
{
    let sub1 = s.subrange(i, i + 1);
    assert(sub1.drop_last() =~= Seq::<u8>::empty());
    assert(digits_val(Seq::<u8>::empty()) == 0);
    assert(sub1.last() == s[i]);
    assert(digits_val(sub1) == digits_val(sub1.drop_last()) * 10 + (sub1.last() - 48));
}

/// Reads `w` digit bytes of `s` starting at `i` as a decimal number;
/// nothing if any of them is not a digit.
pub fn read_digits(s: &Vec<u8>, i: usize, w: usize) -> (r: Option<u32>)
    requires
        i + w <= s@.len(),
        w <= 9,
    ensures
        match r {
            Some(v) => is_digit_run(s@, i as int, w as int) && v == digits_val(
                s@.subrange(i as int, i as int + w),
            ) && v < pow10(w as nat),
            None => !is_digit_run(s@, i as int, w as int),
        },
{
    let slen: usize = s.len();
    let mut j: usize = 0;
    let mut acc: u32 = 0;
    proof {
        assert(s@.subrange(i as int, i as int) =~= Seq::<u8>::empty());
    }
    while j < w
        invariant
            i + w <= s@.len(),
            s@.len() == slen,
            w <= 9,
            j <= w,
            is_digit_run(s@, i as int, j as int),
            acc == digits_val(s@.subrange(i as int, (i + j) as int)),
            acc < pow10(j as nat),
        decreases w - j,
    {
        let b = s[i + j];
        if b < 48 || b > 57 {
            assert(!is_digit(s@[(i + j) as int]));
            return None;
        }
        proof {
            let sub1 = s@.subrange(i as int, (i + j + 1) as int);
            assert(sub1.drop_last() =~= s@.subrange(i as int, (i + j) as int));
            assert(sub1.last() == s@[(i + j) as int]);
            lemma_pow10_le((j + 1) as nat, 9);
            lemma_pow10_values();
        }
        acc = acc * 10 + (b - 48) as u32;
        j = j + 1;
    }
    Some(acc)
}

} // verus!

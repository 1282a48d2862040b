//! Shared numeric helpers of the engine: truncating division, integer square
//! roots, the random source, and parsing of rule-weight text.

use vstd::arithmetic::div_mod::{lemma_div_is_ordered, lemma_div_multiples_vanish};
use vstd::prelude::*;

use crate::clamp_lim;
use crate::LIM;

verus! {

/// Division that truncates toward zero (the behaviour of `/` on machine
/// integers), for a positive divisor.
pub open spec fn tdiv(a: int, b: int) -> int {
    if a >= 0 {
        a / b
    } else {
        -((-a) / b)
    }
}

/// `(a * b) / d`, truncating toward zero, where `|a| <= d`; the result then
/// cannot exceed `|b|`.
pub fn scaled_quotient(a: i64, b: i64, d: i64) -> (r: i64)
    requires
        1 <= d,
        -d <= a <= d,
        -LIM <= b <= LIM,
        d <= 4 * (LIM as int),
    ensures
        r == tdiv(a * b, d as int),
        -LIM <= r <= LIM,
{
    proof {
        assert(-0x40_0000_0000_0000_0000_0000_0000 <= a * b <= 0x40_0000_0000_0000_0000_0000_0000)
            by (nonlinear_arith)
            requires
                -d <= a <= d,
                -LIM <= b <= LIM,
                1 <= d <= 4 * (LIM as int),
                LIM == 0x4_0000_0000_0000,
        ;
    }
    let p: i128 = (a as i128) * (b as i128);
    let mag: u128 = if p >= 0 {
        p as u128
    } else {
        (-p) as u128
    };
    let q: u128 = mag / (d as u128);
    proof {
        let bm = if b >= 0 { b as int } else { -(b as int) };
        assert(mag == if a * b >= 0 { a * b } else { -(a * b) });
        assert(mag <= d * bm) by (nonlinear_arith)
            requires
                -d <= a <= d,
                1 <= d,
                bm == if b >= 0 { b as int } else { -(b as int) },
                mag == if a * b >= 0 { a * b } else { -(a * b) },
        ;
        lemma_div_is_ordered(mag as int, d * bm, d as int);
        lemma_div_multiples_vanish(bm, d as int);
        assert(mag as int / (d as int) <= bm);
    }
    if p >= 0 {
        q as i64
    } else {
        -(q as i64)
    }
}

/// `a / 2`, truncating toward zero.
pub fn half(a: i64) -> (r: i64)
    requires
        -2 * (LIM as int) <= a <= 2 * (LIM as int),
    ensures
        r == tdiv(a as int, 2),
        -LIM <= r <= LIM,
{
    if a >= 0 {
        ((a as u64) / 2) as i64
    } else {
        -((((-a) as u64) / 2) as i64)
    }
}

/// `r` is the integer square root of `n`, rounded down.
pub open spec fn is_floor_sqrt(n: int, r: int) -> bool {
    &&& 0 <= r
    &&& r * r <= n
    &&& n < (r + 1) * (r + 1)
}

/// The integer square root, rounded down (well defined for `n >= 0`).
pub open spec fn sqrt_floor(n: int) -> int {
    choose|r: int| is_floor_sqrt(n, r)
}

/// The floor square root is unique, so any witness names `sqrt_floor` itself.
pub proof fn lemma_floor_sqrt_unique(n: int, r: int)
    requires
        is_floor_sqrt(n, r),
    ensures
        sqrt_floor(n) == r,
{
    let c = sqrt_floor(n);
    assert(is_floor_sqrt(n, c));
    assert(c == r) by (nonlinear_arith)
        requires
            is_floor_sqrt(n, c),
            is_floor_sqrt(n, r),
    ;
}

/// Any value whose square is at most `n` is at most the floor square root.
pub proof fn lemma_floor_sqrt_at_least(n: int, v: int)
    requires
        is_floor_sqrt(n, sqrt_floor(n)),
        0 <= v,
        v * v <= n,
    ensures
        v <= sqrt_floor(n),
{
    let c = sqrt_floor(n);
    assert(v <= c) by (nonlinear_arith)
        requires
            is_floor_sqrt(n, c),
            0 <= v,
            v * v <= n,
    ;
}

/// The integer square root of `n`, rounded down, by bisection.
pub fn isqrt(n: u128) -> (r: u64)
    requires
        n < 0x100_0000_0000_0000_0000_0000_0000,
    ensures
        is_floor_sqrt(n as int, r as int),
        sqrt_floor(n as int) == r as int,
        r <= 0x10_0000_0000_0000,
{
    let mut lo: u64 = 0;
    let mut hi: u64 = 0x10_0000_0000_0000;
    proof {
        assert((hi as int + 1) * (hi as int + 1) > n) by (nonlinear_arith)
            requires
                hi == 0x10_0000_0000_0000,
                n < 0x100_0000_0000_0000_0000_0000_0000,
        ;
    }
    while lo < hi
        invariant
            0 <= lo <= hi <= 0x10_0000_0000_0000,
            lo * lo <= n,
            n < (hi + 1) * (hi + 1),
        decreases hi - lo,
    {
        let mid: u64 = lo + (hi - lo + 1) / 2;
        proof {
            assert(lo < mid <= hi);
            assert((mid as u128) * (mid as u128) <= 0x100_0000_0000_0000_0000_0000_0000)
                by (nonlinear_arith)
                requires
                    mid <= 0x10_0000_0000_0000u64,
            ;
        }
        if (mid as u128) * (mid as u128) <= n {
            lo = mid;
        } else {
            hi = mid - 1;
        }
    }
    proof {
        lemma_floor_sqrt_unique(n as int, lo as int);
    }
    lo
}

/// Clamp a wide intermediate value into the model range `[-LIM, LIM]`.
pub fn clamp_wide(x: i128) -> (r: i64)
    ensures
        r == clamp_lim(x as int),
{
    if x > LIM as i128 {
        LIM
    } else if x < -(LIM as i128) {
        -LIM
    } else {
        x as i64
    }
}

/// Relies on `rand::random_range`: a number drawn from the inclusive range
/// `min..=max`; the call panics only when the range is empty.
#[verifier::external_body]
pub fn random_range(min: i64, max: i64) -> (r: i64)
    requires
        min <= max,
    ensures
        min <= r <= max,
{
    rand::random_range(min..=max)
}

/// `c` is a decimal digit.
pub open spec fn is_digit(c: char) -> bool {
    48 <= c as u32 <= 57
}

/// The value of a decimal digit.
pub open spec fn digit_val(c: char) -> int {
    c as u32 - 48
}

/// The value of a string of decimal digits, most significant first.
pub open spec fn digits_val(s: Seq<char>) -> int
    decreases s.len(),
{
    if s.len() == 0 {
        0
    } else {
        10 * digits_val(s.drop_last()) + digit_val(s.last())
    }
}

/// Every character of `s` is a decimal digit.
pub open spec fn all_digits(s: Seq<char>) -> bool {
    forall|i: int| 0 <= i < s.len() ==> is_digit(#[trigger] s[i])
}

/// `s` denotes a decimal integer: an optional sign followed by at least one
/// digit.
pub open spec fn is_numeral(s: Seq<char>) -> bool {
    if s.len() == 0 {
        false
    } else if s[0] == '-' || s[0] == '+' {
        s.len() > 1 && all_digits(s.skip(1))
    } else {
        all_digits(s)
    }
}

/// The signed value that a numeral denotes.
pub open spec fn numeral_val(s: Seq<char>) -> int
    recommends
        is_numeral(s),
{
    if s[0] == '-' {
        -digits_val(s.skip(1))
    } else if s[0] == '+' {
        digits_val(s.skip(1))
    } else {
        digits_val(s)
    }
}

/// The weight a piece of rule text denotes: a decimal integer, clamped into
/// the model range; any malformed text falls back to a weight of zero.
pub open spec fn weight_of_text(s: Seq<char>) -> int {
    if is_numeral(s) {
        clamp_lim(numeral_val(s))
    } else {
        0
    }
}

/// A digit string has a non-negative value.
proof fn lemma_digits_val_nonneg(s: Seq<char>)
    requires
        all_digits(s),
    ensures
        digits_val(s) >= 0,
    decreases s.len(),
{
    if s.len() > 0 {
        assert(all_digits(s.drop_last()));
        lemma_digits_val_nonneg(s.drop_last());
    }
}

/// Parse rule-weight text: the denoted decimal integer clamped into
/// `[-LIM, LIM]`, or zero when the text is not a numeral.
pub fn str_to_num(s: &str) -> (w: i64)
    ensures
        w == weight_of_text(s@),
        -LIM <= w <= LIM,
{
    let len = s.unicode_len();
    if len == 0 {
        return 0;
    }
    let first = s.get_char(0);
    let negative: bool = first == '-';
    let start: usize = if first == '-' || first == '+' {
        1
    } else {
        0
    };
    if len == start {
        // A sign with no digits after it.
        return 0;
    }
    let ghost digits: Seq<char> = s@.skip(start as int);
    let mut acc: i64 = 0;
    let mut i: usize = start;
    while i < len
        invariant
            start <= i <= len,
            len == s@.len(),
            start == 0 || start == 1,
            start == 1 ==> (s@[0] == '-' || s@[0] == '+'),
            start == 0 ==> !(s@[0] == '-' || s@[0] == '+'),
            negative == (s@[0] == '-'),
            digits == s@.skip(start as int),
            all_digits(s@.subrange(start as int, i as int)),
            0 <= acc <= LIM,
            acc == clamp_lim(digits_val(s@.subrange(start as int, i as int))),
        decreases len - i,
    {
        let c = s.get_char(i);
        let cv = c as u32;
        if cv < 48 || cv > 57 {
            proof {
                assert(!is_digit(s@[i as int]));
                if start == 1 {
                    assert(s@.skip(1)[i - 1] == s@[i as int]);
                    assert(!is_digit(s@.skip(1)[i - 1]));
                    assert(!all_digits(s@.skip(1)));
                } else {
                    assert(!all_digits(s@));
                }
                assert(!is_numeral(s@));
            }
            return 0;
        }
        let d: i64 = (cv - 48) as i64;
        let grown: i64 = 10 * acc + d;
        let ghost prefix = s@.subrange(start as int, i as int);
        let ghost extended = s@.subrange(start as int, i + 1 as int);
        proof {
            assert(extended.drop_last() =~= prefix);
            assert(extended.last() == s@[i as int]);
            assert(digits_val(extended) == 10 * digits_val(prefix) + d);
            lemma_digits_val_nonneg(extended);
            // Clamping at every step agrees with clamping once at the end:
            // a value past the cap only grows with further digits.
            if digits_val(prefix) > LIM {
                assert(acc == LIM);
                assert(digits_val(extended) > LIM);
            }
        }
        acc = if grown > LIM {
            LIM
        } else {
            grown
        };
        i = i + 1;
    }
    proof {
        assert(s@.subrange(start as int, len as int) =~= digits);
        if start == 0 {
            assert(digits =~= s@);
        }
        assert(is_numeral(s@));
        lemma_digits_val_nonneg(digits);
    }
    if negative {
        -acc
    } else {
        acc
    }
}

} // verus!

//! Order of single-precision numbers, decided on their bit patterns.
//!
//! A pattern is a sign bit, eight exponent bits and 23 fraction bits. Among
//! patterns of one sign the magnitude grows with the pattern, so two numbers
//! compare as their signed magnitudes do; patterns above the infinities are
//! not numbers and compare with nothing.

use vstd::arithmetic::power2::pow2;
use vstd::prelude::*;

use crate::wire::F32Bits;

verus! {

/// The pattern stands for no number.
pub open spec fn is_nan(v: F32Bits) -> bool {
    v % 0x8000_0000 > 0x7F80_0000
}

/// An integer by which numbers are ordered; both zeros give 0.
pub open spec fn rank(v: F32Bits) -> int {
    if v < 0x8000_0000 {
        v as int
    } else {
        0x8000_0000 - v
    }
}

/// `a > b` as numbers: false if either is not one.
pub open spec fn greater(a: F32Bits, b: F32Bits) -> bool {
    !is_nan(a) && !is_nan(b) && rank(a) > rank(b)
}

/// `a >= b` as numbers: false if either is not one.
pub open spec fn not_below(a: F32Bits, b: F32Bits) -> bool {
    !is_nan(a) && !is_nan(b) && rank(a) >= rank(b)
}

/// The larger of two numbers; a pattern that is none gives way to the other.
pub open spec fn larger(a: F32Bits, b: F32Bits) -> F32Bits {
    if is_nan(a) {
        b
    } else if is_nan(b) || rank(a) >= rank(b) {
        a
    } else {
        b
    }
}

/// What a pattern without its sign stands for, in units of the smallest
/// positive number: the fraction, with a leading one above the subnormals,
/// shifted by the exponent. An infinity lies beyond all numbers.
pub open spec fn magnitude(v: F32Bits) -> nat {
    let exponent = (v / 0x80_0000) % 256;
    let fraction = v % 0x80_0000;
    if exponent == 0 {
        fraction as nat
    } else {
        (0x80_0000 + fraction) as nat * pow2((exponent - 1) as nat)
    }
}

/// The number that a pattern stands for, in units of the smallest positive one.
pub open spec fn number(v: F32Bits) -> int {
    if v >= 0x8000_0000 {
        -(magnitude(v) as int)
    } else {
        magnitude(v) as int
    }
}

proof fn magnitude_grows(u: F32Bits, w: F32Bits)
    requires
        u < w < 0x8000_0000,
    ensures
        magnitude(u) < magnitude(w),
{
    let (eu, ew) = ((u / 0x80_0000) % 256, (w / 0x80_0000) % 256);
    let (fu, fw) = (u % 0x80_0000, w % 0x80_0000);
    assert(eu <= ew);
    assert(eu == ew ==> fu < fw);
    if ew > 0 {
        let pw = pow2((ew - 1) as nat) as int;
        vstd::arithmetic::power2::lemma_pow2_pos((ew - 1) as nat);
        if eu == ew {
            assert((0x80_0000 + fu) * pw < (0x80_0000 + fw) * pw) by (nonlinear_arith)
                requires
                    fu < fw,
                    pw > 0,
            ;
        } else {
            assert(0x80_0000 * pw <= (0x80_0000 + fw) * pw) by (nonlinear_arith)
                requires
                    fw >= 0,
                    pw > 0,
            ;
            if eu == 0 {
                assert(0x80_0000 <= 0x80_0000 * pw) by (nonlinear_arith)
                    requires
                        pw >= 1,
                ;
            } else {
                let pu = pow2((eu - 1) as nat) as int;
                vstd::arithmetic::power2::lemma_pow2_pos((eu - 1) as nat);
                vstd::arithmetic::power2::lemma_pow2_unfold(eu as nat);
                if eu < ew - 1 {
                    vstd::arithmetic::power2::lemma_pow2_strictly_increases(
                        eu as nat,
                        (ew - 1) as nat,
                    );
                }
                assert(2 * pu <= pw);
                assert((0x80_0000 + fu) * pu < 0x80_0000 * pw) by (nonlinear_arith)
                    requires
                        0 <= fu < 0x80_0000,
                        0 < pu,
                        2 * pu <= pw,
                ;
            }
        }
    }
}

/// The patterns are ordered as the numbers they stand for.
pub proof fn patterns_are_ordered_as_numbers(a: F32Bits, b: F32Bits)
    ensures
        greater(a, b) == (!is_nan(a) && !is_nan(b) && number(a) > number(b)),
        not_below(a, b) == (!is_nan(a) && !is_nan(b) && number(a) >= number(b)),
        !is_nan(a) && !is_nan(b) ==> number(larger(a, b)) == if number(a) >= number(b) {
            number(a)
        } else {
            number(b)
        },
        larger(a, b) == a || larger(a, b) == b,
        is_nan(a) && !is_nan(b) ==> larger(a, b) == b && larger(b, a) == b,
        is_nan(a) == ((a / 0x80_0000) % 256 == 255 && a % 0x80_0000 != 0),
{
    let (u, w) = (a % 0x8000_0000, b % 0x8000_0000);
    assert(magnitude(a) == magnitude(u)) by {
        assert((a / 0x80_0000) % 256 == (u / 0x80_0000) % 256 && a % 0x80_0000 == u % 0x80_0000);
    }
    assert(magnitude(b) == magnitude(w)) by {
        assert((b / 0x80_0000) % 256 == (w / 0x80_0000) % 256 && b % 0x80_0000 == w % 0x80_0000);
    }
    assert(magnitude(0) == 0);
    if u < w {
        magnitude_grows(u, w);
    } else if w < u {
        magnitude_grows(w, u);
    }
    if u > 0 {
        magnitude_grows(0, u);
    }
    if w > 0 {
        magnitude_grows(0, w);
    }
}

/// The larger of two numbers exceeds a bound exactly when one of them does.
pub proof fn larger_exceeds_iff_either_does(a: F32Bits, b: F32Bits, bound: F32Bits)
    ensures
        greater(larger(a, b), bound) == (greater(a, bound) || greater(b, bound)),
{
}

/// The order is a strict one: nothing exceeds itself, and a chain of excesses
/// is an excess.
pub proof fn greater_is_a_strict_order(a: F32Bits, b: F32Bits, c: F32Bits)
    ensures
        !greater(a, a),
        greater(a, b) && greater(b, c) ==> greater(a, c),
        greater(a, b) ==> !greater(b, a),
{
}

fn nan(v: F32Bits) -> (r: bool)
    ensures
        r == is_nan(v),
{
    v % 0x8000_0000 > 0x7F80_0000
}

fn rank_of(v: F32Bits) -> (r: i64)
    ensures
        r == rank(v),
{
    if v < 0x8000_0000 {
        v as i64
    } else {
        0x8000_0000 - v as i64
    }
}

/// Whether `a > b` as numbers.
pub fn exceeds(a: F32Bits, b: F32Bits) -> (r: bool)
    ensures
        r == greater(a, b),
{
    !nan(a) && !nan(b) && rank_of(a) > rank_of(b)
}

/// Whether `a >= b` as numbers.
pub fn at_least(a: F32Bits, b: F32Bits) -> (r: bool)
    ensures
        r == not_below(a, b),
{
    !nan(a) && !nan(b) && rank_of(a) >= rank_of(b)
}

/// The larger of two numbers.
pub fn larger_of(a: F32Bits, b: F32Bits) -> (r: F32Bits)
    ensures
        r == larger(a, b),
{
    if nan(a) {
        b
    } else if nan(b) || rank_of(a) >= rank_of(b) {
        a
    } else {
        b
    }
}

} // verus!

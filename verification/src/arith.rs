//! Integer operations of the measurement statistics.

use vstd::prelude::*;

use crate::wire::{i8_of_u8, to_i8};

verus! {

/// `sum / n` cut towards zero; an empty count divides by one.
pub open spec fn mean(sum: int, n: nat) -> int {
    let d: int = if n == 0 {
        1
    } else {
        n as int
    };
    if sum >= 0 {
        sum / d
    } else {
        -((-sum) / d)
    }
}

/// The mean of values within bounds is within them.
pub proof fn mean_is_within(sum: int, n: nat, low: int, high: int)
    requires
        low <= 0 <= high,
        low * n <= sum <= high * n,
    ensures
        low <= mean(sum, n) <= high,
{
    if n == 0 {
        assert(low * 0 == 0 && high * 0 == 0) by (nonlinear_arith);
    } else {
        let d = n as int;
        if sum >= 0 {
            assert(0 <= sum / d <= high) by (nonlinear_arith)
                requires
                    0 <= sum <= high * d,
                    d > 0,
            ;
        } else {
            assert(low * n == -((-low) * d)) by (nonlinear_arith)
                requires
                    d == n,
            ;
            assert(0 <= (-sum) / d <= -low) by (nonlinear_arith)
                requires
                    0 <= -sum <= (-low) * d,
                    d > 0,
            ;
        }
    }
}

/// The mean of equal values is that value, and any mean is less than one unit
/// from the exact one, on the side of zero.
pub proof fn mean_is_near(sum: int, n: nat, v: int)
    requires
        n > 0,
    ensures
        sum >= 0 ==> 0 <= sum - n * mean(sum, n) < n,
        sum <= 0 ==> 0 <= n * mean(sum, n) - sum < n,
        sum == n * v ==> mean(sum, n) == v,
{
    let d = n as int;
    let m = if sum >= 0 {
        sum
    } else {
        -sum
    };
    vstd::arithmetic::div_mod::lemma_fundamental_div_mod(m, d);
    vstd::arithmetic::div_mod::lemma_mod_bound(m, d);
    assert(d * (-(m / d)) == -(d * (m / d))) by (nonlinear_arith);
    if sum == n * v {
        if sum >= 0 {
            assert(v >= 0) by (nonlinear_arith)
                requires
                    d * v >= 0,
                    d > 0,
            ;
            vstd::arithmetic::div_mod::lemma_div_multiples_vanish(v, d);
            assert(d * v == v * d) by (nonlinear_arith);
        } else {
            vstd::arithmetic::div_mod::lemma_div_multiples_vanish(-v, d);
            assert(-(d * v) == d * (-v)) by (nonlinear_arith);
        }
    }
}

/// The distance of two sequence numbers, added to the first, gives the second
/// modulo 2^32.
pub proof fn seq_distance_leads_on(a: u32, b: u32)
    ensures
        (a + seq_distance(a, b)) % 0x1_0000_0000 == b,
{
}

/// The kept bits agree with the number modulo 256.
pub proof fn low_byte_is_congruent(v: int)
    ensures
        (v - low_byte(v)) % 256 == 0,
{
}

/// Mean of a sum, cut towards zero.
pub fn signed_mean(sum: i64, n: u32) -> (r: i64)
    requires
        sum > i64::MIN,
    ensures
        r == mean(sum as int, n as nat),
{
    let d: u64 = if n == 0 {
        1
    } else {
        n as u64
    };
    if sum >= 0 {
        let q: u64 = sum as u64 / d;
        proof {
            assert(q <= sum) by (nonlinear_arith)
                requires
                    q == sum as int / d as int,
                    d > 0,
                    sum >= 0,
            ;
        }
        q as i64
    } else {
        let m: u64 = (-sum) as u64;
        let q: u64 = m / d;
        proof {
            assert(q <= m) by (nonlinear_arith)
                requires
                    q == m as int / d as int,
                    d > 0,
                    m >= 0,
            ;
        }
        -(q as i64)
    }
}

/// Mean of an unsigned sum.
pub fn unsigned_mean(sum: u64, n: u32) -> (r: u64)
    ensures
        r == mean(sum as int, n as nat),
{
    if n == 0 {
        sum
    } else {
        sum / n as u64
    }
}

/// The signed number whose bits are the low eight bits of `v`.
pub open spec fn low_byte(v: int) -> i8 {
    i8_of_u8((v % 256) as u8)
}

/// A number that fits eight bits is kept.
pub proof fn low_byte_keeps_small_values(v: int)
    requires
        -128 <= v <= 127,
    ensures
        low_byte(v) == v,
{
}

/// Keeps the low eight bits.
pub fn low_i8(v: i64) -> (r: i8)
    requires
        v > i64::MIN,
    ensures
        r == low_byte(v as int),
{
    let b: u8 = if v >= 0 {
        (v as u64 % 256) as u8
    } else {
        let m: u64 = (-v) as u64 % 256;
        if m == 0 {
            0
        } else {
            (256 - m) as u8
        }
    };
    assert(b == v as int % 256);
    to_i8(b)
}

/// How far the sequence number `b` is ahead of `a`, modulo 2^32.
pub open spec fn seq_distance(a: u32, b: u32) -> u32 {
    if b >= a {
        (b - a) as u32
    } else {
        (b + 0x1_0000_0000 - a) as u32
    }
}

/// How far the sequence number `b` is ahead of `a`.
pub fn seq_ahead_of(a: u32, b: u32) -> (d: u32)
    ensures
        d == seq_distance(a, b),
{
    if b >= a {
        b - a
    } else {
        (b as u64 + 0x1_0000_0000 - a as u64) as u32
    }
}

/// The two's-complement pattern of `v`.
pub open spec fn pattern(v: i32) -> nat {
    if v >= 0 {
        v as nat
    } else {
        (v + 0x1_0000_0000) as nat
    }
}

/// The two's-complement pattern of `v`.
pub fn to_pattern(v: i32) -> (r: u32)
    ensures
        r == pattern(v),
{
    if v >= 0 {
        v as u32
    } else {
        (v as i64 + 0x1_0000_0000) as u32
    }
}

} // verus!

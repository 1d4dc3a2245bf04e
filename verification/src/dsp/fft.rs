//! Sizes and element order of radix-2 transforms.

use vstd::prelude::*;
use vstd::arithmetic::power2::pow2;

verus! {

/// The smallest power of two that is at least `n`.
pub fn next_pow2(n: usize) -> (p: usize)
    requires
        n <= usize::MAX / 2 + 1,
    ensures
        p >= n,
        exists|e: nat| p == pow2(e),
        forall|e: nat| pow2(e) >= n ==> #[trigger] pow2(e) >= p,
{
    let mut p: usize = 1;
    let ghost mut e: nat = 0;
    proof {
        vstd::arithmetic::power2::lemma2_to64();
    }
    while p < n
        invariant
            n <= usize::MAX / 2 + 1,
            p == pow2(e),
            e > 0 ==> pow2((e - 1) as nat) < n,
        decreases usize::MAX - p,
    {
        proof {
            vstd::arithmetic::power2::lemma_pow2_unfold(e + 1);
            vstd::arithmetic::power2::lemma_pow2_pos(e);
            e = e + 1;
        }
        p = 2 * p;
    }
    assert forall|f: nat| pow2(f) >= n implies #[trigger] pow2(f) >= p by {
        if f < e {
            vstd::arithmetic::power2::lemma_pow2_pos(f);
            if f < e - 1 {
                vstd::arithmetic::power2::lemma_pow2_strictly_increases(f, (e - 1) as nat);
            }
        } else if f > e {
            vstd::arithmetic::power2::lemma_pow2_strictly_increases(e, f);
        }
    }
    p
}

/// The number whose `bits` binary digits are those of `i` in reverse.
pub open spec fn reversed(i: nat, bits: nat) -> nat
    decreases bits,
{
    if bits == 0 {
        0
    } else {
        (i % 2) * pow2((bits - 1) as nat) + reversed(i / 2, (bits - 1) as nat)
    }
}

/// Reversal stays within the numbers of `bits` digits.
pub proof fn reversed_is_in_range(i: nat, bits: nat)
    ensures
        reversed(i, bits) < pow2(bits),
    decreases bits,
{
    if bits == 0 {
        vstd::arithmetic::power2::lemma2_to64();
    } else {
        let p = pow2((bits - 1) as nat);
        reversed_is_in_range(i / 2, (bits - 1) as nat);
        vstd::arithmetic::power2::lemma_pow2_unfold(bits);
        assert((i % 2) * p <= p) by (nonlinear_arith)
            requires
                i % 2 <= 1,
                p >= 0,
        ;
    }
}

/// Reversal from the other end: the highest digit becomes the lowest.
proof fn reversed_from_the_top(low: nat, top: nat, bits: nat)
    requires
        low < pow2(bits),
        top <= 1,
    ensures
        reversed(low + top * pow2(bits), bits + 1) == 2 * reversed(low, bits) + top,
    decreases bits,
{
    let i = low + top * pow2(bits);
    if bits == 0 {
        vstd::arithmetic::power2::lemma2_to64();
        assert(low == 0 && i == top);
        reveal_with_fuel(reversed, 2);
        assert(top % 2 == top);
    } else {
        let b = (bits - 1) as nat;
        let p = pow2(b);
        vstd::arithmetic::power2::lemma_pow2_unfold(bits);
        assert(pow2(bits) == 2 * p);
        assert(top * (2 * p) == 2 * (top * p)) by (nonlinear_arith);
        assert(i % 2 == low % 2);
        assert(i / 2 == low / 2 + top * p);
        reversed_from_the_top(low / 2, top, b);
        assert(reversed(i, bits + 1) == (i % 2) * pow2(bits) + reversed(i / 2, bits));
        assert(reversed(low, bits) == (low % 2) * p + reversed(low / 2, b));
        assert((low % 2) * (2 * p) == 2 * ((low % 2) * p)) by (nonlinear_arith);
    }
}

/// Reversing twice gives the number back, so reordering by reversal exchanges
/// pairs of elements.
pub proof fn reversal_is_an_involution(i: nat, bits: nat)
    requires
        i < pow2(bits),
    ensures
        reversed(reversed(i, bits), bits) == i,
    decreases bits,
{
    if bits == 0 {
        vstd::arithmetic::power2::lemma2_to64();
    } else {
        let b = (bits - 1) as nat;
        vstd::arithmetic::power2::lemma_pow2_unfold(bits);
        reversed_is_in_range(i / 2, b);
        reversed_from_the_top(reversed(i / 2, b), i % 2, b);
        reversal_is_an_involution(i / 2, b);
        assert(reversed(i, bits) == reversed(i / 2, b) + (i % 2) * pow2(b));
    }
}

proof fn reversed_by_halves(i: nat, bits: nat)
    requires
        bits > 0,
    ensures
        reversed(i, bits) == reversed(i / 2, bits) / 2 + (i % 2) * pow2((bits - 1) as nat),
{
    halved(i / 2, (bits - 1) as nat);
}

/// Digits above those that are reversed do not matter.
proof fn halved(q: nat, b: nat)
    ensures
        reversed(q, b + 1) / 2 == reversed(q, b),
    decreases b,
{
    if b == 0 {
        reveal_with_fuel(reversed, 2);
        vstd::arithmetic::power2::lemma2_to64();
        assert((q % 2) * 1 == q % 2) by (nonlinear_arith);
    } else {
        let p = pow2((b - 1) as nat);
        vstd::arithmetic::power2::lemma_pow2_unfold(b);
        halved(q / 2, (b - 1) as nat);
        assert(reversed(q, b + 1) == (q % 2) * pow2(b) + reversed(q / 2, b));
        assert(reversed(q, b) == (q % 2) * p + reversed(q / 2, (b - 1) as nat));
        assert((q % 2) * (2 * p) == 2 * ((q % 2) * p)) by (nonlinear_arith);
    }
}

/// The bit-reversed index of every index below `n = 2^bits`.
fn reversed_indices(n: usize, Ghost(bits): Ghost<nat>) -> (r: Vec<usize>)
    requires
        n == pow2(bits),
    ensures
        r@.len() == n,
        forall|i: int| 0 <= i < n ==> #[trigger] r@[i] == reversed(i as nat, bits),
{
    let mut r: Vec<usize> = Vec::new();
    let mut i: usize = 0;
    while i < n
        invariant
            n == pow2(bits),
            i <= n,
            r@.len() == i,
            forall|k: int| 0 <= k < i ==> #[trigger] r@[k] == reversed(k as nat, bits),
        decreases n - i,
    {
        let v: usize;
        if n == 1 {
            proof {
                if bits > 0 {
                    vstd::arithmetic::power2::lemma_pow2_unfold(bits);
                    vstd::arithmetic::power2::lemma_pow2_pos((bits - 1) as nat);
                }
            }
            v = 0;
        } else if i == 0 {
            proof {
                reversed_zero(bits);
            }
            v = 0;
        } else {
            proof {
                vstd::arithmetic::power2::lemma2_to64();
                if bits > 0 {
                    vstd::arithmetic::power2::lemma_pow2_unfold(bits);
                    reversed_by_halves(i as nat, bits);
                    reversed_is_in_range(i as nat, bits);
                }
                assert(bits > 0);
                assert(n / 2 == pow2((bits - 1) as nat));
                assert((i as nat % 2) * pow2((bits - 1) as nat) == if i % 2 == 1 {
                    pow2((bits - 1) as nat)
                } else {
                    0
                }) by {
                    let p = pow2((bits - 1) as nat);
                    assert(0 * p == 0 && 1 * p == p) by (nonlinear_arith);
                }
            }
            let half: usize = r[i / 2] / 2;
            if i % 2 == 1 {
                v = half + n / 2;
            } else {
                v = half;
            }
        }
        r.push(v);
        i += 1;
    }
    r
}

proof fn reversed_zero(bits: nat)
    ensures
        reversed(0, bits) == 0,
    decreases bits,
{
    if bits > 0 {
        reversed_zero((bits - 1) as nat);
        let p = pow2((bits - 1) as nat);
        assert(0 * p == 0) by (nonlinear_arith);
    }
}

/// A length has one number of binary digits.
proof fn pow2_is_injective(a: nat, b: nat)
    requires
        pow2(a) == pow2(b),
    ensures
        a == b,
{
    if a < b {
        vstd::arithmetic::power2::lemma_pow2_strictly_increases(a, b);
    } else if b < a {
        vstd::arithmetic::power2::lemma_pow2_strictly_increases(b, a);
    }
}

/// Reorders the input of an in-place transform of `2^bits` elements: the
/// element at `i` goes to the place whose binary digits are those of `i` in
/// reverse.
pub fn bit_reverse<T: Copy>(buf: &mut [T])
    requires
        exists|bits: nat| #[trigger] pow2(bits) == old(buf)@.len(),
    ensures
        final(buf)@.len() == old(buf)@.len(),
        forall|bits: nat, i: int|
            0 <= i < old(buf)@.len() && #[trigger] pow2(bits) == old(buf)@.len()
                ==> #[trigger] final(buf)@[i] == old(buf)@[reversed(i as nat, bits) as int],
{
    let ghost bits: nat = choose|bits: nat| #[trigger] pow2(bits) == buf@.len();
    let ghost before = buf@;
    exchange(buf, Ghost(bits));
    proof {
        assert forall|b: nat, i: int|
            0 <= i < before.len() && #[trigger] pow2(b) == before.len() implies #[trigger] buf@[i]
            == before[reversed(i as nat, b) as int] by {
            pow2_is_injective(b, bits);
        }
    }
}

fn exchange<T: Copy>(buf: &mut [T], Ghost(bits): Ghost<nat>)
    requires
        old(buf)@.len() == pow2(bits),
    ensures
        final(buf)@.len() == old(buf)@.len(),
        forall|i: int|
            0 <= i < old(buf)@.len() ==> #[trigger] final(buf)@[i] == old(buf)@[reversed(
                i as nat,
                bits,
            ) as int],
{
    let ghost before = buf@;
    let n: usize = buf.len();
    let r = reversed_indices(n, Ghost(bits));
    let mut i: usize = 0;
    while i < n
        invariant
            n == before.len(),
            n == pow2(bits),
            i <= n,
            buf@.len() == n,
            r@.len() == n,
            forall|k: int| 0 <= k < n ==> #[trigger] r@[k] == reversed(k as nat, bits),
            forall|k: int|
                0 <= k < n ==> #[trigger] buf@[k] == (if k < i || reversed(k as nat, bits) < i {
                    before[reversed(k as nat, bits) as int]
                } else {
                    before[k]
                }),
        decreases n - i,
    {
        let j: usize = r[i];
        proof {
            reversed_is_in_range(i as nat, bits);
            reversal_is_an_involution(i as nat, bits);
        }
        if i < j {
            let a: T = buf[i];
            let b: T = buf[j];
            buf[i] = b;
            buf[j] = a;
        }
        proof {
            assert forall|k: int| 0 <= k < n implies #[trigger] buf@[k] == (if k < i + 1
                || reversed(k as nat, bits) < i + 1 {
                before[reversed(k as nat, bits) as int]
            } else {
                before[k]
            }) by {
                reversal_is_an_involution(k as nat, bits);
                if reversed(k as nat, bits) == i {
                    assert(k == j);
                }
            }
        }
        i += 1;
    }
}

} // verus!

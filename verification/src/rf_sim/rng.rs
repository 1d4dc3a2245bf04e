//! Deterministic seeded generator for scenario noise.
//!
//! A xorshift64* stream, with the seed passed through SplitMix64. The stream
//! depends on the seed alone, so a scenario always gets the same noise.

use vstd::prelude::*;

verus! {

/// SplitMix64 of a seed.
pub open spec fn splitmix64(seed: u64) -> u64 {
    let a = seed.wrapping_add(0x9E37_79B9_7F4A_7C15);
    let b = (a ^ (a >> 30u64)).wrapping_mul(0xBF58_476D_1CE4_E5B9);
    let c = (b ^ (b >> 27u64)).wrapping_mul(0x94D0_49BB_1331_11EB);
    c ^ (c >> 31u64)
}

/// The next state of the generator.
pub open spec fn shifted(x: u64) -> u64 {
    let a = x ^ (x >> 12u64);
    let b = a ^ (a << 25u64);
    b ^ (b >> 27u64)
}

/// The number that a state gives.
pub open spec fn scrambled(x: u64) -> u64 {
    shifted(x).wrapping_mul(0x2545_F491_4F6C_DD1D)
}

/// The state after `n` numbers.
pub open spec fn state_after(seed: u64, n: nat) -> u64
    decreases n,
{
    if n == 0 {
        splitmix64(seed)
    } else {
        shifted(state_after(seed, (n - 1) as nat))
    }
}

/// Two streams never run into each other: different states stay different.
pub proof fn shift_is_injective(x: u64, y: u64)
    requires
        shifted(x) == shifted(y),
    ensures
        x == y,
{
    let (a, c) = (x ^ (x >> 12u64), y ^ (y >> 12u64));
    let (b, d) = (a ^ (a << 25u64), c ^ (c << 25u64));
    assert(b ^ (b >> 27u64) == d ^ (d >> 27u64) ==> b == d) by (bit_vector);
    assert(a ^ (a << 25u64) == c ^ (c << 25u64) ==> a == c) by (bit_vector);
    assert(x ^ (x >> 12u64) == y ^ (y >> 12u64) ==> x == y) by (bit_vector);
}

/// The generator never gets stuck at zero.
pub proof fn nonzero_state_stays_nonzero(x: u64)
    requires
        x != 0,
    ensures
        shifted(x) != 0,
{
    assert(0u64 ^ (0u64 >> 12u64) == 0 && 0u64 ^ (0u64 << 25u64) == 0 && 0u64 ^ (0u64 >> 27u64)
        == 0) by (bit_vector);
    if shifted(x) == 0 {
        shift_is_injective(x, 0);
    }
}

/// Deterministic pseudo-random stream.
#[derive(Debug)]
pub struct Rng(u64);

impl View for Rng {
    type V = u64;

    closed spec fn view(&self) -> u64 {
        self.0
    }
}

impl Rng {
    /// Seeds the stream.
    pub fn new(s: u64) -> (r: Self)
        ensures
            r@ == splitmix64(s),
            r@ == state_after(s, 0),
    {
        let a: u64 = s.wrapping_add(0x9E37_79B9_7F4A_7C15);
        let b: u64 = (a ^ (a >> 30u64)).wrapping_mul(0xBF58_476D_1CE4_E5B9);
        let c: u64 = (b ^ (b >> 27u64)).wrapping_mul(0x94D0_49BB_1331_11EB);
        Rng(c ^ (c >> 31u64))
    }

    /// The next number.
    pub fn next_u64(&mut self) -> (v: u64)
        ensures
            v == scrambled(old(self)@),
            final(self)@ == shifted(old(self)@),
    {
        let mut x: u64 = self.0;
        x = x ^ (x >> 12u64);
        x = x ^ (x << 25u64);
        x = x ^ (x >> 27u64);
        self.0 = x;
        x.wrapping_mul(0x2545_F491_4F6C_DD1D)
    }

    /// The upper 53 bits of the next number: the numerator of a uniform
    /// fraction of 2^53.
    pub fn next_fraction(&mut self) -> (v: u64)
        ensures
            v == scrambled(old(self)@) / 2048,
            v < 0x20_0000_0000_0000,
            final(self)@ == shifted(old(self)@),
    {
        self.next_u64() / 2048
    }
}

} // verus!

//! CRC-16/XMODEM: polynomial `0x1021`, initial value 0, no reflection.

use vstd::prelude::*;

verus! {

/// One step of the shift register: shift left, and subtract the polynomial
/// when the top bit falls out.
pub open spec fn crc_shift(c: u16) -> u16 {
    if c & 0x8000 != 0 {
        (c << 1) ^ 0x1021
    } else {
        c << 1
    }
}

/// The register after one more message byte.
pub open spec fn crc_byte(c: u16, b: u8) -> u16 {
    crc_shift(crc_shift(crc_shift(crc_shift(crc_shift(crc_shift(crc_shift(crc_shift(
        c ^ ((b as u16) << 8),
    ))))))))
}

/// The register after the whole message, starting from `seed`.
pub open spec fn crc_of(seed: u16, s: Seq<u8>) -> u16
    decreases s.len(),
{
    if s.len() == 0 {
        seed
    } else {
        crc_byte(crc_of(seed, s.drop_last()), s.last())
    }
}

/// Checksumming a message in two pieces, the second continuing from the
/// result of the first, gives the checksum of the whole.
pub proof fn crc_incremental(seed: u16, a: Seq<u8>, b: Seq<u8>)
    ensures
        crc_of(crc_of(seed, a), b) == crc_of(seed, a + b),
    decreases b.len(),
{
    if b.len() == 0 {
        assert(a + b =~= a);
    } else {
        crc_incremental(seed, a, b.drop_last());
        assert((a + b).drop_last() =~= a + b.drop_last());
        assert((a + b).last() == b.last());
    }
}

/// Distinct registers stay distinct under the same byte.
proof fn crc_byte_keeps_registers_apart(c: u16, d: u16, b: u8)
    by (bit_vector)
    requires
        c != d,
    ensures
        crc_byte(c, b) != crc_byte(d, b),
{
}

/// Distinct bytes drive the same register to distinct values.
proof fn crc_byte_keeps_bytes_apart(c: u16, a: u8, b: u8)
    by (bit_vector)
    requires
        a != b,
    ensures
        crc_byte(c, a) != crc_byte(c, b),
{
}

/// Distinct registers stay distinct under the same message.
pub proof fn crc_keeps_registers_apart(c: u16, d: u16, s: Seq<u8>)
    requires
        c != d,
    ensures
        crc_of(c, s) != crc_of(d, s),
    decreases s.len(),
{
    if s.len() > 0 {
        crc_keeps_registers_apart(c, d, s.drop_last());
        crc_byte_keeps_registers_apart(
            crc_of(c, s.drop_last()),
            crc_of(d, s.drop_last()),
            s.last(),
        );
    }
}

/// Changing any single byte of a message changes its checksum.
pub proof fn crc_detects_changed_byte(seed: u16, s: Seq<u8>, i: int, b: u8)
    requires
        0 <= i < s.len(),
        b != s[i],
    ensures
        crc_of(seed, s.update(i, b)) != crc_of(seed, s),
    decreases s.len(),
{
    let t = s.update(i, b);
    if i == s.len() - 1 {
        assert(t.drop_last() =~= s.drop_last());
        crc_byte_keeps_bytes_apart(crc_of(seed, s.drop_last()), b, s.last());
    } else {
        assert(t.drop_last() =~= s.drop_last().update(i, b));
        crc_detects_changed_byte(seed, s.drop_last(), i, b);
        crc_byte_keeps_registers_apart(
            crc_of(seed, t.drop_last()),
            crc_of(seed, s.drop_last()),
            s.last(),
        );
    }
}

/// CRC-16/XMODEM of `data`.
pub fn crc16(data: &[u8]) -> (crc: u16)
    ensures
        crc == crc_of(0, data@),
{
    crc16_ext(0, data)
}

/// Continues a CRC-16/XMODEM from `seed` over `data`, so that a message can
/// be checksummed piece by piece.
pub fn crc16_ext(seed: u16, data: &[u8]) -> (crc: u16)
    ensures
        crc == crc_of(seed, data@),
{
    let mut crc: u16 = seed;
    let mut i: usize = 0;
    while i < data.len()
        invariant
            i <= data@.len(),
            crc == crc_of(seed, data@.subrange(0, i as int)),
        decreases data@.len() - i,
    {
        let ghost before = crc;
        crc = crc ^ ((data[i] as u16) << 8);
        let ghost c0 = crc;
        let mut bit: usize = 0;
        while bit < 8
            invariant
                bit <= 8,
                crc == crc_shifts(c0, bit as nat),
            decreases 8 - bit,
        {
            crc = if crc & 0x8000 != 0 {
                (crc << 1) ^ 0x1021
            } else {
                crc << 1
            };
            bit += 1;
        }
        proof {
            reveal_with_fuel(crc_shifts, 9);
            assert(crc == crc_byte(before, data@[i as int]));
            assert(data@.subrange(0, i + 1).drop_last() =~= data@.subrange(0, i as int));
        }
        i += 1;
    }
    assert(data@.subrange(0, data@.len() as int) =~= data@);
    crc
}

/// The register after `n` steps without new input.
spec fn crc_shifts(c: u16, n: nat) -> u16
    decreases n,
{
    if n == 0 {
        c
    } else {
        crc_shift(crc_shifts(c, (n - 1) as nat))
    }
}

} // verus!

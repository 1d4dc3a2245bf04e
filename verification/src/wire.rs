//! Little-endian byte encodings.
//!
//! Every packet, blob and telemetry frame in this crate is a byte string whose
//! multi-byte fields are little-endian. The spec functions here give the
//! meaning of such bytes in both directions; the executable functions read
//! and write them.

use vstd::prelude::*;

verus! {

/// The IEEE-754 bit pattern of a single-precision number. The library carries
/// such values from one byte string to another and never computes with them.
pub type F32Bits = u32;

/// The two bytes of `v`, least significant first.
pub open spec fn u16_bytes(v: u16) -> Seq<u8> {
    seq![(v % 256) as u8, (v / 256) as u8]
}

/// The four bytes of `v`, least significant first.
pub open spec fn u32_bytes(v: u32) -> Seq<u8> {
    seq![
        (v % 256) as u8,
        (v / 256 % 256) as u8,
        (v / 65536 % 256) as u8,
        (v / 16777216) as u8,
    ]
}

/// The eight bytes of `v`, least significant first.
pub open spec fn u64_bytes(v: u64) -> Seq<u8> {
    u32_bytes((v % 0x1_0000_0000) as u32) + u32_bytes((v / 0x1_0000_0000) as u32)
}

/// The two's-complement pattern of `v`.
pub open spec fn u8_of_i8(v: i8) -> u8 {
    if v >= 0 { v as u8 } else { (v + 256) as u8 }
}

/// The value whose two's-complement pattern is `v`.
pub open spec fn i8_of_u8(v: u8) -> i8 {
    if v < 128 { v as i8 } else { (v - 256) as i8 }
}

/// The two's-complement pattern of `v`.
pub open spec fn u16_of_i16(v: i16) -> u16 {
    if v >= 0 { v as u16 } else { (v + 65536) as u16 }
}

/// The value whose two's-complement pattern is `v`.
pub open spec fn i16_of_u16(v: u16) -> i16 {
    if v < 32768 { v as i16 } else { (v - 65536) as i16 }
}

/// The two bytes of `v` in two's complement, least significant first.
pub open spec fn i16_bytes(v: i16) -> Seq<u8> {
    u16_bytes(u16_of_i16(v))
}

/// The 16-bit number stored at `at`.
pub open spec fn u16_at(s: Seq<u8>, at: int) -> u16 {
    (s[at] + 256 * s[at + 1]) as u16
}

/// The 32-bit number stored at `at`.
pub open spec fn u32_at(s: Seq<u8>, at: int) -> u32 {
    (s[at] + 256 * s[at + 1] + 65536 * s[at + 2] + 16777216 * s[at + 3]) as u32
}

/// The 64-bit number stored at `at`.
pub open spec fn u64_at(s: Seq<u8>, at: int) -> u64 {
    (u32_at(s, at) + 0x1_0000_0000 * u32_at(s, at + 4)) as u64
}

/// The signed 16-bit number stored at `at`.
pub open spec fn i16_at(s: Seq<u8>, at: int) -> i16 {
    i16_of_u16(u16_at(s, at))
}

/// Writing a signed byte and reading it back gives the same value.
pub proof fn i8_round_trip(v: i8)
    ensures
        i8_of_u8(u8_of_i8(v)) == v,
{
}

/// Writing a signed 16-bit number and reading it back gives the same value.
pub proof fn i16_round_trip(v: i16)
    ensures
        i16_of_u16(u16_of_i16(v)) == v,
{
}

/// A 16-bit number placed anywhere in a byte string is read back unchanged.
pub proof fn u16_round_trip(s: Seq<u8>, at: int, v: u16)
    requires
        0 <= at,
        at + 2 <= s.len(),
        s.subrange(at, at + 2) == u16_bytes(v),
    ensures
        u16_at(s, at) == v,
{
    let w = s.subrange(at, at + 2);
    assert(s[at] == w[0] && s[at + 1] == w[1]);
}

/// A 32-bit number placed anywhere in a byte string is read back unchanged.
pub proof fn u32_round_trip(s: Seq<u8>, at: int, v: u32)
    requires
        0 <= at,
        at + 4 <= s.len(),
        s.subrange(at, at + 4) == u32_bytes(v),
    ensures
        u32_at(s, at) == v,
{
    let w = s.subrange(at, at + 4);
    assert(s[at] == w[0] && s[at + 1] == w[1] && s[at + 2] == w[2] && s[at + 3] == w[3]);
}

/// A 64-bit number placed anywhere in a byte string is read back unchanged.
pub proof fn u64_round_trip(s: Seq<u8>, at: int, v: u64)
    requires
        0 <= at,
        at + 8 <= s.len(),
        s.subrange(at, at + 8) == u64_bytes(v),
    ensures
        u64_at(s, at) == v,
{
    let w = s.subrange(at, at + 8);
    let lo = (v % 0x1_0000_0000) as u32;
    let hi = (v / 0x1_0000_0000) as u32;
    assert(s.subrange(at, at + 4) =~= u32_bytes(lo)) by {
        assert(s.subrange(at, at + 4) =~= w.subrange(0, 4));
        assert(w.subrange(0, 4) =~= u32_bytes(lo));
    }
    assert(s.subrange(at + 4, at + 8) =~= u32_bytes(hi)) by {
        assert(s.subrange(at + 4, at + 8) =~= w.subrange(4, 8));
        assert(w.subrange(4, 8) =~= u32_bytes(hi));
    }
    u32_round_trip(s, at, lo);
    u32_round_trip(s, at + 4, hi);
}

/// The bytes of the 16-bit number stored at `at` are the bytes stored there.
pub proof fn u16_bytes_of_at(s: Seq<u8>, at: int)
    requires
        0 <= at,
        at + 2 <= s.len(),
    ensures
        u16_bytes(u16_at(s, at)) == s.subrange(at, at + 2),
{
    assert(u16_bytes(u16_at(s, at)) =~= s.subrange(at, at + 2));
}

/// The bytes of the 32-bit number stored at `at` are the bytes stored there.
pub proof fn u32_bytes_of_at(s: Seq<u8>, at: int)
    requires
        0 <= at,
        at + 4 <= s.len(),
    ensures
        u32_bytes(u32_at(s, at)) == s.subrange(at, at + 4),
{
    let v = u32_at(s, at);
    let w = s.subrange(at, at + 4);
    digits_of_sum(w[0] as int, w[1] as int, w[2] as int, w[3] as int);
    assert(v == w[0] + 256 * w[1] + 65536 * w[2] + 16777216 * w[3]);
    let r = u32_bytes(v);
    assert(r[0] == w[0] && r[1] == w[1] && r[2] == w[2] && r[3] == w[3]);
    assert(r =~= w);
}

/// The base-256 digits of a four-digit number.
proof fn digits_of_sum(a: int, b: int, c: int, d: int)
    requires
        0 <= a < 256,
        0 <= b < 256,
        0 <= c < 256,
        0 <= d < 256,
    ensures
        (a + 256 * b + 65536 * c + 16777216 * d) % 256 == a,
        (a + 256 * b + 65536 * c + 16777216 * d) / 256 % 256 == b,
        (a + 256 * b + 65536 * c + 16777216 * d) / 65536 % 256 == c,
        (a + 256 * b + 65536 * c + 16777216 * d) / 16777216 == d,
{
    let v = a + 256 * b + 65536 * c + 16777216 * d;
    assert(v / 256 == b + 256 * c + 65536 * d);
    assert(v / 65536 == c + 256 * d);
    assert(v / 16777216 == d);
}

/// The bytes of the 64-bit number stored at `at` are the bytes stored there.
pub proof fn u64_bytes_of_at(s: Seq<u8>, at: int)
    requires
        0 <= at,
        at + 8 <= s.len(),
    ensures
        u64_bytes(u64_at(s, at)) == s.subrange(at, at + 8),
{
    let lo = u32_at(s, at);
    let hi = u32_at(s, at + 4);
    let v = u64_at(s, at);
    assert(v == lo + 0x1_0000_0000 * hi);
    assert(v % 0x1_0000_0000 == lo && v / 0x1_0000_0000 == hi);
    u32_bytes_of_at(s, at);
    u32_bytes_of_at(s, at + 4);
    assert(s.subrange(at, at + 8) =~= s.subrange(at, at + 4) + s.subrange(at + 4, at + 8));
}

/// Reads the 16-bit number stored at `at`.
pub fn get_u16(b: &[u8], at: usize) -> (v: u16)
    requires
        at + 2 <= b@.len(),
    ensures
        v == u16_at(b@, at as int),
{
    b[at] as u16 + 256 * (b[at + 1] as u16)
}

/// Reads the 32-bit number stored at `at`.
pub fn get_u32(b: &[u8], at: usize) -> (v: u32)
    requires
        at + 4 <= b@.len(),
    ensures
        v == u32_at(b@, at as int),
{
    b[at] as u32 + 256 * (b[at + 1] as u32) + 65536 * (b[at + 2] as u32) + 16777216 * (
    b[at + 3] as u32)
}

/// Reads the 64-bit number stored at `at`.
pub fn get_u64(b: &[u8], at: usize) -> (v: u64)
    requires
        at + 8 <= b@.len(),
    ensures
        v == u64_at(b@, at as int),
{
    assert(b@.len() == b.len());
    get_u32(b, at) as u64 + 0x1_0000_0000 * (get_u32(b, at + 4) as u64)
}

/// Reads the signed 16-bit number stored at `at`.
pub fn get_i16(b: &[u8], at: usize) -> (v: i16)
    requires
        at + 2 <= b@.len(),
    ensures
        v == i16_at(b@, at as int),
{
    to_i16(get_u16(b, at))
}

/// Reinterprets a bit pattern as a signed 16-bit number.
pub fn to_i16(v: u16) -> (r: i16)
    ensures
        r == i16_of_u16(v),
{
    if v < 32768 {
        v as i16
    } else {
        (v as i32 - 65536) as i16
    }
}

/// Reinterprets a byte as a signed number.
pub fn to_i8(v: u8) -> (r: i8)
    ensures
        r == i8_of_u8(v),
{
    if v < 128 {
        v as i8
    } else {
        (v as i16 - 256) as i8
    }
}

/// The two's-complement byte of a signed number.
pub fn from_i8(v: i8) -> (r: u8)
    ensures
        r == u8_of_i8(v),
{
    if v >= 0 {
        v as u8
    } else {
        (v as i16 + 256) as u8
    }
}

/// The two's-complement pattern of a signed 16-bit number.
pub fn from_i16(v: i16) -> (r: u16)
    ensures
        r == u16_of_i16(v),
{
    if v >= 0 {
        v as u16
    } else {
        (v as i32 + 65536) as u16
    }
}

/// Appends the two bytes of `v`.
pub fn put_u16(out: &mut Vec<u8>, v: u16)
    ensures
        final(out)@ == old(out)@ + u16_bytes(v),
{
    out.push((v % 256) as u8);
    out.push((v / 256) as u8);
}

/// Appends the four bytes of `v`.
pub fn put_u32(out: &mut Vec<u8>, v: u32)
    ensures
        final(out)@ == old(out)@ + u32_bytes(v),
{
    out.push((v % 256) as u8);
    out.push((v / 256 % 256) as u8);
    out.push((v / 65536 % 256) as u8);
    out.push((v / 16777216) as u8);
}

/// Appends the eight bytes of `v`.
pub fn put_u64(out: &mut Vec<u8>, v: u64)
    ensures
        final(out)@ == old(out)@ + u64_bytes(v),
{
    put_u32(out, (v % 0x1_0000_0000) as u32);
    put_u32(out, (v / 0x1_0000_0000) as u32);
}

/// Appends the two bytes of `v` in two's complement.
pub fn put_i16(out: &mut Vec<u8>, v: i16)
    ensures
        final(out)@ == old(out)@ + i16_bytes(v),
{
    put_u16(out, from_i16(v));
}

/// Appends all of `src`.
pub fn put_slice(out: &mut Vec<u8>, src: &[u8])
    ensures
        final(out)@ == old(out)@ + src@,
{
    let ghost before = out@;
    let mut i: usize = 0;
    while i < src.len()
        invariant
            i <= src@.len(),
            out@ == before + src@.subrange(0, i as int),
        decreases src@.len() - i,
    {
        out.push(src[i]);
        i += 1;
        assert(src@.subrange(0, i as int) =~= src@.subrange(0, i - 1).push(src@[i - 1]));
    }
    assert(src@.subrange(0, src@.len() as int) =~= src@);
}

/// `dst` with the bytes from `at` on overwritten by `src`.
pub open spec fn overwrite(dst: Seq<u8>, at: int, src: Seq<u8>) -> Seq<u8> {
    dst.subrange(0, at) + src + dst.subrange(at + src.len(), dst.len() as int)
}

/// Overwriting changes exactly the bytes in its place.
pub proof fn overwriting_leaves_the_rest(before: Seq<u8>, at: int, src: Seq<u8>, i: int)
    requires
        0 <= at,
        at + src.len() <= before.len(),
        0 <= i < before.len(),
    ensures
        overwrite(before, at, src).len() == before.len(),
        at <= i < at + src.len() ==> overwrite(before, at, src)[i] == src[i - at],
        !(at <= i < at + src.len()) ==> overwrite(before, at, src)[i] == before[i],
{
}

/// Overwrites the bytes of `dst` from `at` on with `src`.
pub fn write_at(dst: &mut [u8], at: usize, src: &[u8])
    requires
        at + src@.len() <= old(dst)@.len(),
    ensures
        final(dst)@ == overwrite(old(dst)@, at as int, src@),
{
    let ghost before = dst@;
    assert(dst@.len() == dst.len());
    let mut i: usize = 0;
    while i < src.len()
        invariant
            i <= src@.len(),
            before.len() <= usize::MAX,
            at + src@.len() <= before.len(),
            dst@.len() == before.len(),
            forall|k: int| 0 <= k < at ==> dst@[k] == before[k],
            forall|k: int| at <= k < at + i ==> dst@[k] == src@[k - at],
            forall|k: int| at + i <= k < before.len() ==> dst@[k] == before[k],
        decreases src@.len() - i,
    {
        dst[at + i] = src[i];
        i += 1;
    }
    assert(dst@ =~= overwrite(before, at as int, src@));
}

} // verus!

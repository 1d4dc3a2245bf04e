//! Versioned wired protocol of the optional RP2350 coprocessor.
//!
//! The RP2350 is a compute node with no RF responsibility, connected to
//! RADAR-TX over a UART. RADAR-TX operates without it: the link is best-effort
//! and self-healing. Frames have a 16-byte header with the same kind of
//! checksum as radar frames.

use vstd::prelude::*;

pub mod cap;
pub mod msg_type;

use crate::crc::{crc16_ext, crc_of};
use crate::wire::{
    get_u16, get_u32, overwrite, put_slice, put_u16, put_u32, u16_at, u16_bytes, u32_at, u32_bytes,
    write_at,
};

verus! {

/// "RCOP".
pub const MAGIC: u32 = 0x5243_4F50;

pub const VERSION: u8 = 1;

pub const MAX_PAYLOAD: usize = 1024;

/// Encoded header size.
pub const HEADER_SIZE: usize = 16;

#[derive(Clone, Copy, Debug, PartialEq, Eq, Structural)]
pub struct Header {
    pub magic: u32,
    pub version: u8,
    /// One of `msg_type`.
    pub msg_type: u8,
    pub flags: u8,
    pub reserved: u8,
    /// Coprocessor-local sequence, independent of the RF sequence.
    pub seq: u32,
    pub payload_len: u16,
    pub crc16: u16,
}

impl Default for Header {
    fn default() -> (h: Self)
        ensures
            h == (Header {
                magic: 0,
                version: 0,
                msg_type: 0,
                flags: 0,
                reserved: 0,
                seq: 0,
                payload_len: 0,
                crc16: 0,
            }),
    {
        Self {
            magic: 0,
            version: 0,
            msg_type: 0,
            flags: 0,
            reserved: 0,
            seq: 0,
            payload_len: 0,
            crc16: 0,
        }
    }
}

/// Answer to HELLO.
#[derive(Clone, Copy, Debug, PartialEq)]
pub struct HelloAck {
    /// Bit mask of `cap`.
    pub caps: u16,
    /// Highest stream rate the coprocessor can sustain.
    pub max_rate_hz: u16,
    /// Largest supported FFT, as a power of two.
    pub fft_size_log2: u8,
    pub reserved: [u8; 3],
    pub fw_version: u32,
}

/// Encoded size of a HELLO answer.
pub const HELLO_ACK_SIZE: usize = 12;

impl Default for HelloAck {
    fn default() -> (a: Self)
        ensures
            a.caps == 0 && a.max_rate_hz == 0 && a.fft_size_log2 == 0 && a.fw_version == 0,
            a.reserved@ == seq![0u8, 0u8, 0u8],
    {
        let a = Self {
            caps: 0,
            max_rate_hz: 0,
            fft_size_log2: 0,
            reserved: [0u8, 0u8, 0u8],
            fw_version: 0,
        };
        assert(a.reserved@ =~= seq![0u8, 0u8, 0u8]);
        a
    }
}

/// Stream configuration.
#[derive(Clone, Copy, Debug, PartialEq)]
pub struct Config {
    pub stream_rate_hz: u16,
    pub fft_size_log2: u8,
    pub spectrogram_rate_hz: u8,
    pub n_pca_components: u8,
    pub reserved: [u8; 3],
}

impl Default for Config {
    fn default() -> (c: Self)
        ensures
            c.stream_rate_hz == 0 && c.fft_size_log2 == 0 && c.spectrogram_rate_hz == 0
                && c.n_pca_components == 0,
            c.reserved@ == seq![0u8, 0u8, 0u8],
    {
        let c = Self {
            stream_rate_hz: 0,
            fft_size_log2: 0,
            spectrogram_rate_hz: 0,
            n_pca_components: 0,
            reserved: [0u8, 0u8, 0u8],
        };
        assert(c.reserved@ =~= seq![0u8, 0u8, 0u8]);
        c
    }
}

/// Coprocessor health.
#[derive(Clone, Copy, Debug, PartialEq, Eq, Structural)]
pub struct Status {
    pub uptime_s: u32,
    pub heap_free: u16,
    pub queue_depth_pct: u8,
    pub dsp_load_pct: u8,
}

/// Encoded size of a coprocessor status.
pub const STATUS_SIZE: usize = 8;

impl Default for Status {
    fn default() -> (s: Self)
        ensures
            s == (Status { uptime_s: 0, heap_free: 0, queue_depth_pct: 0, dsp_load_pct: 0 }),
    {
        Self { uptime_s: 0, heap_free: 0, queue_depth_pct: 0, dsp_load_pct: 0 }
    }
}

/// The encoded header.
pub open spec fn header_bytes(h: Header) -> Seq<u8> {
    u32_bytes(h.magic) + seq![h.version, h.msg_type, h.flags, h.reserved] + u32_bytes(h.seq)
        + u16_bytes(h.payload_len) + u16_bytes(h.crc16)
}

/// The header that the first 16 bytes of `s` encode.
pub open spec fn header_at(s: Seq<u8>) -> Header {
    Header {
        magic: u32_at(s, 0),
        version: s[4],
        msg_type: s[5],
        flags: s[6],
        reserved: s[7],
        seq: u32_at(s, 8),
        payload_len: u16_at(s, 12),
        crc16: u16_at(s, 14),
    }
}

/// The checksum that belongs to a header and its payload.
pub open spec fn frame_crc(h: Header, payload: Seq<u8>) -> u16 {
    crc_of(0, header_bytes(Header { crc16: 0, ..h }) + payload)
}

/// `h` made to describe `payload`: its length and checksum filled in.
pub open spec fn sealed(h: Header, payload: Seq<u8>) -> Header {
    let described = Header { payload_len: payload.len() as u16, ..h };
    Header { crc16: frame_crc(described, payload), ..described }
}

/// The frame that carries `payload` under `h`.
pub open spec fn frame_bytes(h: Header, payload: Seq<u8>) -> Seq<u8> {
    header_bytes(sealed(h, payload)) + payload
}

/// The payload that follows the header at the front of `s`.
pub open spec fn payload_at(s: Seq<u8>) -> Seq<u8> {
    s.subrange(16, 16 + header_at(s).payload_len)
}

/// `s` starts with an intact coprocessor frame of this version.
pub open spec fn intact(s: Seq<u8>) -> bool {
    &&& s.len() >= 16
    &&& header_at(s).magic == MAGIC
    &&& header_at(s).version == VERSION
    &&& s.len() >= 16 + header_at(s).payload_len
    &&& header_at(s).crc16 == frame_crc(header_at(s), payload_at(s))
}

/// A header is read back from its encoding, whatever follows it.
pub proof fn header_round_trip(h: Header, rest: Seq<u8>)
    ensures
        header_bytes(h).len() == 16,
        header_at(header_bytes(h) + rest) == h,
{
    let s = header_bytes(h) + rest;
    assert(s.subrange(0, 4) =~= u32_bytes(h.magic));
    assert(s.subrange(8, 12) =~= u32_bytes(h.seq));
    assert(s.subrange(12, 14) =~= u16_bytes(h.payload_len));
    assert(s.subrange(14, 16) =~= u16_bytes(h.crc16));
    crate::wire::u32_round_trip(s, 0, h.magic);
    crate::wire::u32_round_trip(s, 8, h.seq);
    crate::wire::u16_round_trip(s, 12, h.payload_len);
    crate::wire::u16_round_trip(s, 14, h.crc16);
    assert(s[4] == h.version && s[5] == h.msg_type && s[6] == h.flags && s[7] == h.reserved);
}

/// What `build` writes, `parse` accepts and gives back, whatever follows it in
/// the buffer.
pub proof fn frame_round_trip(h: Header, payload: Seq<u8>, rest: Seq<u8>)
    requires
        h.magic == MAGIC,
        h.version == VERSION,
        payload.len() <= u16::MAX,
    ensures
        intact(frame_bytes(h, payload) + rest),
        header_at(frame_bytes(h, payload) + rest) == sealed(h, payload),
        payload_at(frame_bytes(h, payload) + rest) == payload,
{
    let s = frame_bytes(h, payload) + rest;
    header_round_trip(sealed(h, payload), payload + rest);
    assert(s =~= header_bytes(sealed(h, payload)) + (payload + rest));
    assert(payload_at(s) =~= payload);
    let described = Header { payload_len: payload.len() as u16, ..h };
    assert((Header { crc16: 0, ..sealed(h, payload) }) == (Header { crc16: 0, ..described }));
}

/// The encoded HELLO answer.
pub open spec fn hello_ack_bytes(a: HelloAck) -> Seq<u8> {
    u16_bytes(a.caps) + u16_bytes(a.max_rate_hz) + seq![a.fft_size_log2] + a.reserved@ + u32_bytes(
        a.fw_version,
    )
}

/// `a` is the HELLO answer that `p` starts with.
pub open spec fn hello_ack_at(p: Seq<u8>, a: HelloAck) -> bool {
    &&& a.caps == u16_at(p, 0)
    &&& a.max_rate_hz == u16_at(p, 2)
    &&& a.fft_size_log2 == p[4]
    &&& a.reserved@ == p.subrange(5, 8)
    &&& a.fw_version == u32_at(p, 8)
}

/// A HELLO answer is read back from its encoding.
pub proof fn hello_ack_round_trip(a: HelloAck, rest: Seq<u8>)
    ensures
        hello_ack_bytes(a).len() == 12,
        hello_ack_at(hello_ack_bytes(a) + rest, a),
{
    let p = hello_ack_bytes(a) + rest;
    assert(p.subrange(0, 2) =~= u16_bytes(a.caps));
    assert(p.subrange(2, 4) =~= u16_bytes(a.max_rate_hz));
    assert(p.subrange(8, 12) =~= u32_bytes(a.fw_version));
    crate::wire::u16_round_trip(p, 0, a.caps);
    crate::wire::u16_round_trip(p, 2, a.max_rate_hz);
    crate::wire::u32_round_trip(p, 8, a.fw_version);
    assert(a.reserved@ =~= p.subrange(5, 8));
}

/// The status that `p` starts with.
pub open spec fn status_at(p: Seq<u8>) -> Status {
    Status {
        uptime_s: u32_at(p, 0),
        heap_free: u16_at(p, 4),
        queue_depth_pct: p[6],
        dsp_load_pct: p[7],
    }
}

/// Appends the encoded header.
fn put_header(out: &mut Vec<u8>, h: &Header)
    ensures
        final(out)@ == old(out)@ + header_bytes(*h),
{
    put_u32(out, h.magic);
    out.push(h.version);
    out.push(h.msg_type);
    out.push(h.flags);
    out.push(h.reserved);
    put_u32(out, h.seq);
    put_u16(out, h.payload_len);
    put_u16(out, h.crc16);
    assert(out@ =~= old(out)@ + header_bytes(*h));
}

/// The checksum over the header, with a zero CRC field, and the payload.
fn checksum(h: &Header, payload: &[u8]) -> (crc: u16)
    ensures
        crc == frame_crc(*h, payload@),
{
    let unsealed = Header { crc16: 0, ..*h };
    let mut bytes: Vec<u8> = Vec::new();
    put_header(&mut bytes, &unsealed);
    let c: u16 = crc16_ext(0, bytes.as_slice());
    proof {
        assert(bytes@ =~= header_bytes(unsealed));
        crate::crc::crc_incremental(0, bytes@, payload@);
    }
    crc16_ext(c, payload)
}

/// Serializes a header and its payload into `dst`, filling in length and
/// checksum. Returns the number of bytes written, or 0 if `dst` is too small.
pub fn build(dst: &mut [u8], hdr: &Header, payload: &[u8]) -> (n: usize)
    requires
        payload@.len() > u16::MAX ==> old(dst)@.len() < 16 + payload@.len() % 65536,
    ensures
        old(dst)@.len() < 16 + payload@.len() % 65536 ==> n == 0 && final(dst)@ == old(dst)@,
        old(dst)@.len() >= 16 + payload@.len() % 65536 ==> {
            &&& n == 16 + payload@.len()
            &&& final(dst)@ == overwrite(old(dst)@, 0, frame_bytes(*hdr, payload@))
        },
{
    let payload_len: u16 = (payload.len() % 65536) as u16;
    let total: usize = HEADER_SIZE + payload_len as usize;
    if dst.len() < total {
        return 0;
    }
    let mut h = *hdr;
    h.payload_len = payload_len;
    h.crc16 = checksum(&h, payload);
    let mut bytes: Vec<u8> = Vec::new();
    put_header(&mut bytes, &h);
    put_slice(&mut bytes, payload);
    proof {
        header_round_trip(h, Seq::empty());
        assert(h == sealed(*hdr, payload@));
        assert(bytes@ =~= frame_bytes(*hdr, payload@));
    }
    write_at(dst, 0, bytes.as_slice());
    total
}

/// Decodes a header from the front of `b` without validating it.
pub fn decode_header(b: &[u8]) -> (h: Header)
    requires
        b@.len() >= 16,
    ensures
        h == header_at(b@),
{
    Header {
        magic: get_u32(b, 0),
        version: b[4],
        msg_type: b[5],
        flags: b[6],
        reserved: b[7],
        seq: get_u32(b, 8),
        payload_len: get_u16(b, 12),
        crc16: get_u16(b, 14),
    }
}

/// Parses and validates a coprocessor frame: magic, version, length and
/// checksum.
pub fn parse(src: &[u8]) -> (r: Option<(Header, &[u8])>)
    ensures
        match r {
            Some((h, payload)) => intact(src@) && h == header_at(src@) && payload@ == payload_at(
                src@,
            ),
            None => !intact(src@),
        },
{
    if src.len() < HEADER_SIZE {
        return None;
    }
    let hdr = decode_header(src);
    if hdr.magic != MAGIC || hdr.version != VERSION {
        return None;
    }
    let total: usize = HEADER_SIZE + hdr.payload_len as usize;
    if src.len() < total {
        return None;
    }
    let payload = vstd::slice::slice_subrange(src, HEADER_SIZE, total);
    if checksum(&hdr, payload) != hdr.crc16 {
        return None;
    }
    Some((hdr, payload))
}

/// Encodes a HELLO answer.
pub fn encode_hello_ack(a: &HelloAck) -> (out: Vec<u8>)
    ensures
        out@ == hello_ack_bytes(*a),
{
    let mut out: Vec<u8> = Vec::new();
    put_u16(&mut out, a.caps);
    put_u16(&mut out, a.max_rate_hz);
    out.push(a.fft_size_log2);
    put_slice(&mut out, a.reserved.as_slice());
    put_u32(&mut out, a.fw_version);
    assert(out@ =~= hello_ack_bytes(*a));
    out
}

} // verus!

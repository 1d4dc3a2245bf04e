//! Wire format of the radar head.
//!
//! A frame is a 24-byte header followed by its payload. All multi-byte fields
//! are little-endian. The header ends in a CRC-16 over the header itself, with
//! the CRC field taken as zero, and the payload.
//!
//! Frame types:
//!
//! * TX to RX `DataFrame`: one measurement packet; `seq` is the global packet
//!   counter that pairs CSI across links
//! * RX to TX `FeatureReport`: compact feature payload, high rate
//! * TX to RX `CalCmd`: calibration orchestration
//! * RX to TX `CalResp`: per-stage calibration result
//! * any `Status`: diagnostics ping
//! * TX and RP2350 `cp`: versioned coprocessor message

use vstd::prelude::*;

pub mod cal_action;
pub mod cal_result;
pub mod cal_stage;
pub mod cp;
pub mod data_flags;
pub mod frame_type;
pub mod node;
pub mod payloads;
pub mod report_flags;
pub mod snapshot_flags;

pub use crate::crc::crc16_ext;
pub use payloads::{CalCmd, CalResp, CsiSnapshot, DataPayload, FeatureReport, Status};
pub use payloads::parse_csi_snapshot;

use crate::crc::{crc16, crc_of};
use crate::wire::{
    get_u16, get_u32, get_u64, overwrite, put_slice, put_u16, put_u32, put_u64, u16_at, u16_bytes,
    u32_at, u32_bytes, u64_at, u64_bytes, write_at,
};

verus! {

/// "RDR1": the first four bytes of every radar frame.
pub const MAGIC: u32 = 0x5244_5231;

pub const VERSION: u8 = 1;

/// Encoded header size.
pub const HEADER_SIZE: usize = 24;

pub const MAX_PAYLOAD: usize = 512;

pub const MAX_PCA: usize = 8;

/// Number of subcarriers in the fixed head's HT20 CSI.
pub const N_SUBCARRIERS: usize = 56;

/// Number of interleaved I/Q values in a snapshot.
pub const N_IQ: usize = 112;

/// Number of STFT frequency bins in a snapshot's motion-spectrum column.
pub const N_SPEC_BINS: usize = 64;

/// Common header. `payload_len` is the length of the payload that follows.
#[derive(Clone, Copy, Debug, PartialEq, Eq, Structural)]
pub struct Header {
    pub magic: u32,
    pub version: u8,
    /// One of `frame_type`.
    pub kind: u8,
    pub src_node: u8,
    pub dst_node: u8,
    pub seq: u32,
    pub t_us: u64,
    pub payload_len: u16,
    pub crc16: u16,
}

/// The encoded header.
pub open spec fn header_bytes(h: Header) -> Seq<u8> {
    u32_bytes(h.magic) + seq![h.version, h.kind, h.src_node, h.dst_node] + u32_bytes(h.seq)
        + u64_bytes(h.t_us) + u16_bytes(h.payload_len) + u16_bytes(h.crc16)
}

/// The header that the first 24 bytes of `s` encode.
pub open spec fn header_at(s: Seq<u8>) -> Header {
    Header {
        magic: u32_at(s, 0),
        version: s[4],
        kind: s[5],
        src_node: s[6],
        dst_node: s[7],
        seq: u32_at(s, 8),
        t_us: u64_at(s, 12),
        payload_len: u16_at(s, 20),
        crc16: u16_at(s, 22),
    }
}

/// The checksum that belongs to a header and its payload: over the header with
/// a zero CRC field, then the payload.
pub open spec fn frame_crc(h: Header, payload: Seq<u8>) -> u16 {
    crc_of(0, header_bytes(Header { crc16: 0, ..h }) + payload)
}

/// `h` made to describe `payload`: its length and checksum filled in.
pub open spec fn sealed(h: Header, payload: Seq<u8>) -> Header {
    let described = Header { payload_len: payload.len() as u16, ..h };
    Header { crc16: frame_crc(described, payload), ..described }
}

/// The frame that carries `payload` under `h`.
pub open spec fn frame_bytes(h: Header, payload: Seq<u8>) -> Seq<u8> {
    header_bytes(sealed(h, payload)) + payload
}

/// The header of this protocol version with the given fields and no checksum.
pub open spec fn new_header(
    kind: u8,
    src: u8,
    dst: u8,
    seq: u32,
    t_us: u64,
    payload_len: u16,
) -> Header {
    Header {
        magic: MAGIC,
        version: VERSION,
        kind,
        src_node: src,
        dst_node: dst,
        seq,
        t_us,
        payload_len,
        crc16: 0,
    }
}

/// What writing a frame does to a buffer: nothing if the buffer is too small,
/// else the frame overwrites its front. `n` is the number of bytes written.
pub open spec fn built_into(
    before: Seq<u8>,
    after: Seq<u8>,
    n: usize,
    h: Header,
    payload: Seq<u8>,
) -> bool {
    if before.len() < 24 + payload.len() {
        n == 0 && after == before
    } else {
        n == 24 + payload.len() && after == overwrite(before, 0, frame_bytes(h, payload))
    }
}

/// The payload that follows the header at the front of `s`.
pub open spec fn payload_at(s: Seq<u8>) -> Seq<u8> {
    s.subrange(24, 24 + header_at(s).payload_len)
}

/// `s` starts with an intact frame of this protocol and version.
pub open spec fn intact(s: Seq<u8>) -> bool {
    &&& s.len() >= 24
    &&& header_at(s).magic == MAGIC
    &&& header_at(s).version == VERSION
    &&& s.len() >= 24 + header_at(s).payload_len
    &&& header_at(s).crc16 == frame_crc(header_at(s), payload_at(s))
}

/// A header is read back from its encoding, whatever follows it.
pub proof fn header_round_trip(h: Header, rest: Seq<u8>)
    ensures
        header_bytes(h).len() == 24,
        header_at(header_bytes(h) + rest) == h,
{
    let s = header_bytes(h) + rest;
    assert(s.subrange(0, 4) =~= u32_bytes(h.magic));
    assert(s.subrange(8, 12) =~= u32_bytes(h.seq));
    assert(s.subrange(12, 20) =~= u64_bytes(h.t_us));
    assert(s.subrange(20, 22) =~= u16_bytes(h.payload_len));
    assert(s.subrange(22, 24) =~= u16_bytes(h.crc16));
    crate::wire::u32_round_trip(s, 0, h.magic);
    crate::wire::u32_round_trip(s, 8, h.seq);
    crate::wire::u64_round_trip(s, 12, h.t_us);
    crate::wire::u16_round_trip(s, 20, h.payload_len);
    crate::wire::u16_round_trip(s, 22, h.crc16);
    assert(s[4] == h.version && s[5] == h.kind && s[6] == h.src_node && s[7] == h.dst_node);
}

/// The header bytes are the encoding of the header they encode.
pub proof fn header_bytes_of_header_at(s: Seq<u8>)
    requires
        s.len() >= 24,
    ensures
        header_bytes(header_at(s)) == s.subrange(0, 24),
{
    let h = header_at(s);
    crate::wire::u32_bytes_of_at(s, 0);
    crate::wire::u32_bytes_of_at(s, 8);
    crate::wire::u64_bytes_of_at(s, 12);
    crate::wire::u16_bytes_of_at(s, 20);
    crate::wire::u16_bytes_of_at(s, 22);
    let fields = s.subrange(0, 4) + seq![s[4], s[5], s[6], s[7]] + s.subrange(8, 12) + s.subrange(
        12,
        20,
    ) + s.subrange(20, 22) + s.subrange(22, 24);
    assert(header_bytes(h) == fields);
    assert(fields =~= s.subrange(0, 24));
}

/// What `build` writes, `parse` accepts and gives back, whatever follows it in
/// the buffer: the header with its length and checksum filled in, and the
/// payload.
pub proof fn frame_round_trip(h: Header, payload: Seq<u8>, rest: Seq<u8>)
    requires
        h.magic == MAGIC,
        h.version == VERSION,
        payload.len() <= u16::MAX,
    ensures
        intact(frame_bytes(h, payload) + rest),
        header_at(frame_bytes(h, payload) + rest) == sealed(h, payload),
        payload_at(frame_bytes(h, payload) + rest) == payload,
{
    let s = frame_bytes(h, payload) + rest;
    header_round_trip(sealed(h, payload), payload + rest);
    assert(s =~= header_bytes(sealed(h, payload)) + (payload + rest));
    assert(payload_at(s) =~= payload);
    let described = Header { payload_len: payload.len() as u16, ..h };
    assert((Header { crc16: 0, ..sealed(h, payload) }) == (Header { crc16: 0, ..described }));
}

/// Where the fields of a header stand in a frame; its length is that of the
/// payload that follows, and its checksum is over the frame with zeros in the
/// checksum's place.
pub proof fn frame_layout(h: Header, payload: Seq<u8>)
    requires
        payload.len() <= u16::MAX,
    ensures
        ({
            let s = frame_bytes(h, payload);
            &&& s.len() == 24 + payload.len()
            &&& u32_at(s, 0) == h.magic
            &&& s[4] == h.version
            &&& s[5] == h.kind
            &&& s[6] == h.src_node
            &&& s[7] == h.dst_node
            &&& u32_at(s, 8) == h.seq
            &&& u64_at(s, 12) == h.t_us
            &&& u16_at(s, 20) == payload.len()
            &&& s.skip(24) == payload
            &&& u16_at(s, 22) == crc_of(0, s.update(22, 0).update(23, 0))
        }),
{
    let s = frame_bytes(h, payload);
    let sealed_h = sealed(h, payload);
    header_round_trip(sealed_h, payload);
    assert(s.skip(24) =~= payload);
    let bare = Header { crc16: 0, ..sealed_h };
    header_round_trip(bare, payload);
    assert(s.update(22, 0).update(23, 0) =~= header_bytes(bare) + payload) by {
        assert(u16_bytes(0)[0] == 0 && u16_bytes(0)[1] == 0);
    }
    let described = Header { payload_len: payload.len() as u16, ..h };
    assert(bare == (Header { crc16: 0, ..described }));
}

/// A new header carries what it is given, under this protocol's magic and
/// version.
pub proof fn new_header_carries_its_fields(
    kind: u8,
    src: u8,
    dst: u8,
    seq: u32,
    t_us: u64,
    payload_len: u16,
)
    ensures
        ({
            let h = new_header(kind, src, dst, seq, t_us, payload_len);
            &&& h.magic == 0x5244_5231 && h.version == 1
            &&& h.kind == kind && h.src_node == src && h.dst_node == dst
            &&& h.seq == seq && h.t_us == t_us && h.payload_len == payload_len
        }),
{
}

/// An intact frame is exactly what `build` writes for its own header and
/// payload.
pub proof fn intact_frame_is_built(s: Seq<u8>)
    requires
        intact(s),
    ensures
        s.subrange(0, 24 + header_at(s).payload_len) == frame_bytes(header_at(s), payload_at(s)),
{
    header_bytes_of_header_at(s);
    let h = header_at(s);
    assert(payload_at(s).len() == h.payload_len);
    assert((Header { payload_len: payload_at(s).len() as u16, ..h }) == h);
    assert(sealed(h, payload_at(s)) == h);
    assert(s.subrange(0, 24 + h.payload_len) =~= s.subrange(0, 24) + payload_at(s));
}

/// What makes a frame intact, told from its bytes alone: this protocol's magic
/// and version, all of the payload that it claims, and a checksum over all of
/// it with zeros in the checksum's place.
pub proof fn intact_frames_told_from_their_bytes(s: Seq<u8>)
    ensures
        intact(s) == (s.len() >= 24 && u32_at(s, 0) == 0x5244_5231 && s[4] == 1 && s.len() >= 24
            + u16_at(s, 20) && u16_at(s, 22) == crc_of(
            0,
            s.subrange(0, 24 + u16_at(s, 20)).update(22, 0).update(23, 0),
        )),
{
    if s.len() >= 24 && s.len() >= 24 + u16_at(s, 20) {
        let n = 24 + u16_at(s, 20);
        let h = header_at(s);
        header_bytes_of_header_at(s);
        let bare = Header { crc16: 0, ..h };
        assert(s.subrange(0, n).update(22, 0).update(23, 0) =~= header_bytes(bare) + payload_at(s))
            by {
            let b = header_bytes(bare);
            let c = header_bytes(h);
            header_round_trip(bare, Seq::empty());
            header_round_trip(h, Seq::empty());
            assert(c =~= s.subrange(0, 24));
            assert(u16_bytes(0)[0] == 0 && u16_bytes(0)[1] == 0);
            assert forall|i: int| 0 <= i < 24 implies b[i] == s.subrange(0, n).update(22, 0).update(
                23,
                0,
            )[i] by {
                if i < 22 {
                    assert(b[i] == c[i]);
                    assert(c[i] == s[i]);
                }
            }
        }
    }
}

/// No frame survives the corruption of one byte, unless the byte belongs to
/// the length field (bytes 20 and 21).
#[verifier::rlimit(40)]
pub proof fn corrupt_byte_is_rejected(s: Seq<u8>, i: int, b: u8)
    requires
        intact(s),
        0 <= i < 24 + header_at(s).payload_len,
        i != 20,
        i != 21,
        b != s[i],
    ensures
        !intact(s.update(i, b)),
{
    let t = s.update(i, b);
    assert(t[20] == s[20] && t[21] == s[21]);
    assert(header_at(t).payload_len == header_at(s).payload_len);
    checked_bytes(s);
    checked_bytes(t);
    if i == 22 || i == 23 {
        assert(t.subrange(0, 22) =~= s.subrange(0, 22));
        assert(payload_at(t) =~= payload_at(s));
        assert(s[22] + 256 * s[23] != t[22] + 256 * t[23]);
        assert(header_at(t).crc16 != header_at(s).crc16);
    } else {
        let zs = s.subrange(0, 22) + seq![0u8, 0u8] + payload_at(s);
        let zt = t.subrange(0, 22) + seq![0u8, 0u8] + payload_at(t);
        assert(t[22] == s[22] && t[23] == s[23]);
        assert(header_at(t).crc16 == header_at(s).crc16);
        assert(zt =~= zs.update(i, b)) by {
            assert(forall|k: int| 24 <= k < zs.len() ==> zs[k] == s[k] && zt[k] == t[k]);
            assert(forall|k: int| 0 <= k < 22 ==> zs[k] == s[k] && zt[k] == t[k]);
        }
        assert(zs[i] == s[i]);
        crate::crc::crc_detects_changed_byte(0, zs, i, b);
    }
}

/// The bytes that the checksum of the frame at the front of `s` runs over.
proof fn checked_bytes(s: Seq<u8>)
    requires
        s.len() >= 24 + header_at(s).payload_len,
    ensures
        frame_crc(header_at(s), payload_at(s)) == crc_of(
            0,
            s.subrange(0, 22) + seq![0u8, 0u8] + payload_at(s),
        ),
{
    let h = header_at(s);
    let z = Header { crc16: 0, ..h };
    header_bytes_of_header_at(s);
    let front = u32_bytes(h.magic) + seq![h.version, h.kind, h.src_node, h.dst_node] + u32_bytes(
        h.seq,
    ) + u64_bytes(h.t_us) + u16_bytes(h.payload_len);
    assert(front.len() == 22);
    assert(header_bytes(h) == front + u16_bytes(h.crc16));
    assert(header_bytes(z) == front + u16_bytes(0));
    assert(front =~= header_bytes(h).subrange(0, 22));
    assert(front =~= s.subrange(0, 22));
    assert(u16_bytes(0) =~= seq![0u8, 0u8]);
}

impl Header {
    /// A header of this protocol version; `build` fills in the checksum.
    pub fn new(kind: u8, src: u8, dst: u8, seq: u32, t_us: u64, payload_len: u16) -> (h: Self)
        ensures
            h == new_header(kind, src, dst, seq, t_us, payload_len),
    {
        Self {
            magic: MAGIC,
            version: VERSION,
            kind,
            src_node: src,
            dst_node: dst,
            seq,
            t_us,
            payload_len,
            crc16: 0,
        }
    }
}

impl Default for Header {
    fn default() -> (h: Self)
        ensures
            h == (Header {
                magic: 0,
                version: 0,
                kind: 0,
                src_node: 0,
                dst_node: 0,
                seq: 0,
                t_us: 0,
                payload_len: 0,
                crc16: 0,
            }),
    {
        Self {
            magic: 0,
            version: 0,
            kind: 0,
            src_node: 0,
            dst_node: 0,
            seq: 0,
            t_us: 0,
            payload_len: 0,
            crc16: 0,
        }
    }
}

/// Appends the encoded header.
fn put_header(out: &mut Vec<u8>, h: &Header)
    ensures
        final(out)@ == old(out)@ + header_bytes(*h),
{
    put_u32(out, h.magic);
    out.push(h.version);
    out.push(h.kind);
    out.push(h.src_node);
    out.push(h.dst_node);
    put_u32(out, h.seq);
    put_u64(out, h.t_us);
    put_u16(out, h.payload_len);
    put_u16(out, h.crc16);
    assert(out@ =~= old(out)@ + header_bytes(*h));
}

/// The checksum over the header, with a zero CRC field, and the payload.
fn checksum(h: &Header, payload: &[u8]) -> (crc: u16)
    ensures
        crc == frame_crc(*h, payload@),
{
    let unsealed = Header { crc16: 0, ..*h };
    let mut bytes: Vec<u8> = Vec::new();
    put_header(&mut bytes, &unsealed);
    let c: u16 = crc16(bytes.as_slice());
    proof {
        assert(bytes@ =~= header_bytes(unsealed));
        crate::crc::crc_incremental(0, bytes@, payload@);
    }
    crc16_ext(c, payload)
}

/// Serializes a header and its payload into `dst` and fills in the payload
/// length and the checksum. Returns the number of bytes written, or 0 if `dst`
/// is too small.
pub fn build(dst: &mut [u8], hdr: &Header, payload: &[u8]) -> (n: usize)
    requires
        payload@.len() <= u16::MAX || old(dst)@.len() < 24 + payload@.len(),
    ensures
        built_into(old(dst)@, final(dst)@, n, *hdr, payload@),
{
    if dst.len() < HEADER_SIZE || dst.len() - HEADER_SIZE < payload.len() {
        return 0;
    }
    let total: usize = HEADER_SIZE + payload.len();
    let mut h = *hdr;
    h.payload_len = payload.len() as u16;
    h.crc16 = checksum(&h, payload);
    let mut bytes: Vec<u8> = Vec::new();
    put_header(&mut bytes, &h);
    put_slice(&mut bytes, payload);
    proof {
        header_round_trip(h, Seq::empty());
        assert(h == sealed(*hdr, payload@));
        assert(bytes@ =~= frame_bytes(*hdr, payload@));
    }
    write_at(dst, 0, bytes.as_slice());
    total
}

/// Decodes a header from the front of `b` without validating it.
pub fn decode_header(b: &[u8]) -> (h: Header)
    requires
        b@.len() >= 24,
    ensures
        h == header_at(b@),
{
    Header {
        magic: get_u32(b, 0),
        version: b[4],
        kind: b[5],
        src_node: b[6],
        dst_node: b[7],
        seq: get_u32(b, 8),
        t_us: get_u64(b, 12),
        payload_len: get_u16(b, 20),
        crc16: get_u16(b, 22),
    }
}

/// Parses and validates a received frame: magic, version, length and checksum.
/// On success returns the header and the payload, a view into `src`.
pub fn parse(src: &[u8]) -> (r: Option<(Header, &[u8])>)
    ensures
        match r {
            Some((h, payload)) => intact(src@) && h == header_at(src@) && payload@ == payload_at(
                src@,
            ),
            None => !intact(src@),
        },
{
    if src.len() < HEADER_SIZE {
        return None;
    }
    let hdr = decode_header(src);
    if hdr.magic != MAGIC || hdr.version != VERSION {
        return None;
    }
    let total: usize = HEADER_SIZE + hdr.payload_len as usize;
    if src.len() < total {
        return None;
    }
    let payload = vstd::slice::slice_subrange(src, HEADER_SIZE, total);
    if checksum(&hdr, payload) != hdr.crc16 {
        return None;
    }
    Some((hdr, payload))
}

} // verus!

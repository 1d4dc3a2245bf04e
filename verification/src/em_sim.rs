//! Byte accounting of the wired links, and the integer side of the decoder
//! stress test.

use vstd::prelude::*;

use crate::protocol::payloads::{
    csi_snapshot_bytes, feature_reals, feature_report_bytes, CsiSnapshot, FeatureReport,
    CAL_CMD_SIZE, CAL_RESP_SIZE, FEATURE_SIZE, SNAPSHOT_SIZE,
};
use crate::protocol::{
    frame_bytes, frame_type, new_header, node, sealed, Header, HEADER_SIZE, MAGIC, VERSION,
};
use crate::transport::framer::{
    concatenated_frames_are_found, frames_in, frames_of, views, FrameView,
};
use crate::transport::{build_csi_snapshot, build_feature_report};

verus! {

/// Bits on the wire: a start bit, eight data bits and a stop bit per byte.
pub fn wire_bits(bytes: usize) -> (bits: usize)
    requires
        bytes * 10 <= usize::MAX,
    ensures
        bits == bytes * 10,
{
    bytes * 10
}

/// Frame sizes of a wired link.
#[derive(Clone, Copy, Debug, PartialEq, Eq, Structural)]
pub struct LinkBudget {
    pub baud: u32,
    pub report_bytes: usize,
    pub snapshot_bytes: usize,
    pub cal_cmd_bytes: usize,
    pub cal_resp_bytes: usize,
}

impl LinkBudget {
    /// The sizes of the frames that cross the link.
    pub fn new(baud: u32) -> (b: Self)
        ensures
            b == (LinkBudget {
                baud,
                report_bytes: 103,
                snapshot_bytes: 383,
                cal_cmd_bytes: 32,
                cal_resp_bytes: 41,
            }),
    {
        LinkBudget {
            baud,
            report_bytes: HEADER_SIZE + FEATURE_SIZE,
            snapshot_bytes: HEADER_SIZE + SNAPSHOT_SIZE,
            cal_cmd_bytes: HEADER_SIZE + CAL_CMD_SIZE,
            cal_resp_bytes: HEADER_SIZE + CAL_RESP_SIZE,
        }
    }
}

/// The budgeted sizes are those of the encoded frames.
pub proof fn budget_counts_the_encoded_frames(r: FeatureReport, s: CsiSnapshot)
    ensures
        24 + feature_report_bytes(r).len() == 103,
        24 + csi_snapshot_bytes(s).len() == 383,
{
    crate::protocol::payloads::feature_report_round_trip(r, Seq::empty());
    crate::protocol::payloads::csi_snapshot_round_trip(s, Seq::empty());
}

/// Which frame of the test stream is a snapshot: every fifth.
pub fn is_snapshot(i: usize) -> (s: bool)
    ensures
        s == (i % 5 == 0),
{
    i % 5 == 0
}

/// The frame `i` of a test stream.
pub open spec fn stream_frame(i: int, report: Seq<u8>, snapshot: Seq<u8>) -> Seq<u8> {
    if i % 5 == 0 {
        snapshot
    } else {
        report
    }
}

/// A test stream of `n` frames.
pub open spec fn stream_of(n: nat, report: Seq<u8>, snapshot: Seq<u8>) -> Seq<u8>
    decreases n,
{
    if n == 0 {
        Seq::empty()
    } else {
        stream_of((n - 1) as nat, report, snapshot) + stream_frame(n - 1, report, snapshot)
    }
}

/// The stream holds every fifth frame as a snapshot and the others as reports,
/// the first being a snapshot; each next frame is appended.
pub proof fn streams_mix_one_snapshot_in_five(n: nat, report: Seq<u8>, snapshot: Seq<u8>)
    ensures
        stream_of(0, report, snapshot).len() == 0,
        n % 5 == 0 ==> stream_of(n + 1, report, snapshot) == stream_of(n, report, snapshot)
            + snapshot,
        n % 5 != 0 ==> stream_of(n + 1, report, snapshot) == stream_of(n, report, snapshot)
            + report,
{
}

/// The report of the test stream.
pub fn test_report() -> (r: FeatureReport)
    ensures
        r.seq == 1234 && r.n_frames == 20 && r.rssi == -52 && r.motion_energy == 0x3EBD_70A4,
        r.n_missing == 0 && r.snr == 0 && r.csi_quality == 0 && r.sat_score == 0,
        r.dyn_range == 0 && r.flags == 0 && r.amp_mean == 0 && r.amp_std == 0,
        r.spectral_entropy == 0 && r.dominant_freq_hz == 0 && r.phase_dispersion == 0,
        r.baseline_dev == 0 && r.pca_scores@ == Seq::new(8, |i: int| 0u32),
{
    let mut r = FeatureReport::default();
    assert(feature_reals(r)[0] == 0 && feature_reals(r)[1] == 0 && feature_reals(r)[3] == 0
        && feature_reals(r)[4] == 0 && feature_reals(r)[5] == 0 && feature_reals(r)[6] == 0);
    r.seq = 1234;
    r.n_frames = 20;
    r.rssi = -52;
    r.motion_energy = 0x3EBD_70A4;
    r
}

/// The snapshot of the test stream.
pub fn test_snapshot() -> (s: CsiSnapshot)
    ensures
        s.seq == 1234 && s.rssi == -52 && s.snr == 0 && s.csi_quality == 0 && s.noise_floor == 0,
        s.flags == 0 && s.n_sub == 0 && s.reserved == 0,
        s.iq@ == Seq::new(112, |i: int| 0i16),
        s.amp_norm@ == Seq::new(56, |i: int| 0u8),
        s.spec@ == Seq::new(64, |i: int| 0u8),
{
    let mut s = CsiSnapshot::default();
    s.seq = 1234;
    s.rssi = -52;
    s
}

/// The wire bytes of a report from the first receiver.
pub open spec fn report_bytes(r: FeatureReport) -> Seq<u8> {
    frame_bytes(
        new_header(frame_type::FEATURE_REPORT, node::RX1, node::TX, r.seq, 1_000_000, 79),
        feature_report_bytes(r),
    )
}

/// The wire bytes of a snapshot from the first receiver.
pub open spec fn snapshot_bytes(s: CsiSnapshot) -> Seq<u8> {
    frame_bytes(
        new_header(frame_type::CSI_SNAPSHOT, node::RX1, node::TX, s.seq, 1_000_000, 359),
        csi_snapshot_bytes(s),
    )
}

/// Encodes a report as the first receiver sends it.
pub fn report_frame(r: &FeatureReport) -> (v: Vec<u8>)
    ensures
        v@ == report_bytes(*r),
{
    let mut buf = [0u8; 103];
    let n: usize = build_feature_report(&mut buf, node::RX1, r, 1_000_000);
    proof {
        budget_counts_the_encoded_frames(*r, arbitrary());
    }
    copied(&buf)
}

/// Encodes a snapshot as the first receiver sends it.
pub fn snapshot_frame(s: &CsiSnapshot) -> (v: Vec<u8>)
    ensures
        v@ == snapshot_bytes(*s),
{
    let mut buf = [0u8; 383];
    let n: usize = build_csi_snapshot(&mut buf, node::RX1, s, 1_000_000);
    proof {
        budget_counts_the_encoded_frames(arbitrary(), *s);
    }
    copied(&buf)
}

fn copied(b: &[u8]) -> (v: Vec<u8>)
    ensures
        v@ == b@,
{
    let mut v: Vec<u8> = Vec::new();
    crate::wire::put_slice(&mut v, b);
    v
}

proof fn expected_frame_counts_once(h: Header, p: Seq<u8>, rest: Seq<u8>)
    requires
        h.magic == MAGIC,
        h.version == VERSION,
        h.kind == frame_type::FEATURE_REPORT || h.kind == frame_type::CSI_SNAPSHOT,
        p.len() <= 512,
    ensures
        frames_in(frame_bytes(h, p) + rest).len() == 1 + frames_in(rest).len(),
        strangers(frames_in(frame_bytes(h, p) + rest)) == strangers(frames_in(rest)),
{
    concatenated_frames_are_found(h, p, rest);
    let (all, later) = (frames_in(frame_bytes(h, p) + rest), frames_in(rest));
    let f = FrameView { header: sealed(h, p), payload: p };
    assert(all == seq![f] + later);
    expected_frame_is_no_stranger(f, later);
}

proof fn expected_frame_is_no_stranger(f: FrameView, later: Seq<FrameView>)
    requires
        !strange(f),
    ensures
        strangers(seq![f] + later) == strangers(later),
{
    strangers_add(seq![f], later);
    assert(seq![f].drop_last() =~= Seq::<FrameView>::empty());
    assert(strangers(seq![f].drop_last()) == 0);
    assert(seq![f].last() == f);
}

proof fn undisturbed_frame(i: int, r: FeatureReport, s: CsiSnapshot, rest: Seq<u8>)
    ensures
        ({
            let more = stream_frame(i, report_bytes(r), snapshot_bytes(s)) + rest;
            &&& frames_in(more).len() == 1 + frames_in(rest).len()
            &&& strangers(frames_in(more)) == strangers(frames_in(rest))
        }),
{
    budget_counts_the_encoded_frames(r, s);
    if i % 5 == 0 {
        let h = new_header(frame_type::CSI_SNAPSHOT, node::RX1, node::TX, s.seq, 1_000_000, 359);
        expected_frame_counts_once(h, csi_snapshot_bytes(s), rest);
    } else {
        let h = new_header(frame_type::FEATURE_REPORT, node::RX1, node::TX, r.seq, 1_000_000, 79);
        expected_frame_counts_once(h, feature_report_bytes(r), rest);
    }
}

proof fn undisturbed_frames(n: nat, r: FeatureReport, s: CsiSnapshot, rest: Seq<u8>)
    ensures
        ({
            let all = stream_of(n, report_bytes(r), snapshot_bytes(s)) + rest;
            &&& frames_in(all).len() == n + frames_in(rest).len()
            &&& strangers(frames_in(all)) == strangers(frames_in(rest))
        }),
    decreases n,
{
    let (a, b) = (report_bytes(r), snapshot_bytes(s));
    if n == 0 {
        assert(stream_of(n, a, b) + rest =~= rest);
    } else {
        let more = stream_frame(n - 1, a, b) + rest;
        undisturbed_frame(n - 1, r, s, rest);
        undisturbed_frames((n - 1) as nat, r, s, more);
        last_frame_goes_to_the_rest(n, a, b, rest);
    }
}

proof fn last_frame_goes_to_the_rest(n: nat, a: Seq<u8>, b: Seq<u8>, rest: Seq<u8>)
    requires
        n > 0,
    ensures
        stream_of(n, a, b) + rest == stream_of((n - 1) as nat, a, b) + (stream_frame(n - 1, a, b)
            + rest),
{
    assert(stream_of(n, a, b) + rest =~= stream_of((n - 1) as nat, a, b) + (stream_frame(
        n - 1,
        a,
        b,
    ) + rest));
}

proof fn strangers_add(a: Seq<FrameView>, b: Seq<FrameView>)
    ensures
        strangers(a + b) == strangers(a) + strangers(b),
    decreases b.len(),
{
    if b.len() == 0 {
        assert(a + b =~= a);
    } else {
        assert((a + b).drop_last() =~= a + b.drop_last());
        strangers_add(a, b.drop_last());
    }
}

/// A test stream that arrives undisturbed is recovered whole, and nothing else
/// comes out of it.
pub proof fn undisturbed_stream_is_recovered(n: nat, r: FeatureReport, s: CsiSnapshot)
    ensures
        frames_in(stream_of(n, report_bytes(r), snapshot_bytes(s))).len() == n,
        strangers(frames_in(stream_of(n, report_bytes(r), snapshot_bytes(s)))) == 0,
{
    let stream = stream_of(n, report_bytes(r), snapshot_bytes(s));
    undisturbed_frames(n, r, s, Seq::empty());
    assert(stream + Seq::<u8>::empty() =~= stream);
}

/// Interleaves reports and snapshots in the ratio that a link carries.
pub fn mixed_stream(n: usize, report: &[u8], snapshot: &[u8]) -> (s: Vec<u8>)
    ensures
        s@ == stream_of(n as nat, report@, snapshot@),
{
    let mut s: Vec<u8> = Vec::new();
    let mut i: usize = 0;
    while i < n
        invariant
            i <= n,
            s@ == stream_of(i as nat, report@, snapshot@),
        decreases n - i,
    {
        if is_snapshot(i) {
            crate::wire::put_slice(&mut s, snapshot);
        } else {
            crate::wire::put_slice(&mut s, report);
        }
        i += 1;
    }
    s
}

/// The word that a state of the bit noise gives.
pub open spec fn noise_word(state: u64) -> u64 {
    let a = (state ^ (state >> 30u64)).wrapping_mul(0xBF58_476D_1CE4_E5B9);
    let b = (a ^ (a >> 27u64)).wrapping_mul(0x94D0_49BB_1331_11EB);
    b ^ (b >> 31u64)
}

/// Source of the bit noise: one word for each bit of the stream.
#[derive(Debug)]
pub struct Noise(u64);

impl View for Noise {
    type V = u64;

    closed spec fn view(&self) -> u64 {
        self.0
    }
}

impl Noise {
    pub fn new() -> (n: Self)
        ensures
            n@ == 0x2545_F491_4F6C_DD1D,
    {
        Noise(0x2545_F491_4F6C_DD1D)
    }

    /// The next word. A bit is hit where the word, as a fraction of the
    /// largest one, is below the bit error rate.
    pub fn next_word(&mut self) -> (w: u64)
        ensures
            final(self)@ == old(self)@.wrapping_add(0x9E37_79B9_7F4A_7C15),
            w == noise_word(final(self)@),
    {
        self.0 = self.0.wrapping_add(0x9E37_79B9_7F4A_7C15);
        let z: u64 = self.0;
        let a: u64 = (z ^ (z >> 30u64)).wrapping_mul(0xBF58_476D_1CE4_E5B9);
        let b: u64 = (a ^ (a >> 27u64)).wrapping_mul(0x94D0_49BB_1331_11EB);
        b ^ (b >> 31u64)
    }
}

/// The bits of a byte that the hits flip: the first hit is on bit 0, the next
/// ones on bits 7 down to 1.
pub open spec fn hit_mask(hits: Seq<bool>) -> u8 {
    (if hits[0] { 1u8 } else { 0u8 }) | (if hits[1] { 128u8 } else { 0u8 }) | (if hits[2] {
        64u8
    } else {
        0u8
    }) | (if hits[3] { 32u8 } else { 0u8 }) | (if hits[4] { 16u8 } else { 0u8 }) | (if hits[5] {
        8u8
    } else {
        0u8
    }) | (if hits[6] { 4u8 } else { 0u8 }) | (if hits[7] { 2u8 } else { 0u8 })
}

fn bit_if(hit: bool, bit: u8) -> (m: u8)
    ensures
        m == (if hit {
            bit
        } else {
            0
        }),
{
    if hit {
        bit
    } else {
        0
    }
}

/// Flips the bits of a byte that were hit.
pub fn corrupt_byte(b: u8, hits: &[bool; 8]) -> (r: u8)
    ensures
        r == b ^ hit_mask(hits@),
{
    let mask: u8 = bit_if(hits[0], 1) | bit_if(hits[1], 128) | bit_if(hits[2], 64) | bit_if(
        hits[3],
        32,
    ) | bit_if(hits[4], 16) | bit_if(hits[5], 8) | bit_if(hits[6], 4) | bit_if(hits[7], 2);
    b ^ mask
}

/// A byte without hits arrives as it was sent; one with a hit does not.
pub proof fn only_hits_change_a_byte(b: u8, hits: Seq<bool>)
    requires
        hits.len() == 8,
    ensures
        (b ^ hit_mask(hits) == b) == (forall|i: int| 0 <= i < 8 ==> !#[trigger] hits[i]),
{
    let (h0, h1, h2, h3) = (hits[0], hits[1], hits[2], hits[3]);
    let (h4, h5, h6, h7) = (hits[4], hits[5], hits[6], hits[7]);
    let m = hit_mask(hits);
    assert(m == (if h0 { 1u8 } else { 0u8 }) | (if h1 { 128u8 } else { 0u8 }) | (if h2 {
        64u8
    } else {
        0u8
    }) | (if h3 { 32u8 } else { 0u8 }) | (if h4 { 16u8 } else { 0u8 }) | (if h5 {
        8u8
    } else {
        0u8
    }) | (if h6 { 4u8 } else { 0u8 }) | (if h7 { 2u8 } else { 0u8 }));
    assert((b ^ m == b) == !(h0 || h1 || h2 || h3 || h4 || h5 || h6 || h7)) by (bit_vector)
        requires
            m == (if h0 { 1u8 } else { 0u8 }) | (if h1 { 128u8 } else { 0u8 }) | (if h2 {
                64u8
            } else {
                0u8
            }) | (if h3 { 32u8 } else { 0u8 }) | (if h4 { 16u8 } else { 0u8 }) | (if h5 {
                8u8
            } else {
                0u8
            }) | (if h6 { 4u8 } else { 0u8 }) | (if h7 { 2u8 } else { 0u8 }),
    ;
}

/// Outcome of a stress test.
#[derive(Clone, Copy, Debug, PartialEq, Eq, Structural)]
pub struct MonteCarlo {
    pub sent: u64,
    pub recovered: u64,
    pub undetected: u64,
}

/// A frame of a type that was never sent got through.
pub open spec fn strange(f: FrameView) -> bool {
    f.header.kind != frame_type::FEATURE_REPORT && f.header.kind != frame_type::CSI_SNAPSHOT
}

/// Frames of types that were never sent.
pub open spec fn strangers(frames: Seq<FrameView>) -> nat
    decreases frames.len(),
{
    if frames.len() == 0 {
        0
    } else {
        strangers(frames.drop_last()) + if strange(frames.last()) {
            1nat
        } else {
            0
        }
    }
}

/// Counts what the decoder recovers from a received stream of `sent` frames.
pub fn monte_carlo(sent: usize, stream: &[u8]) -> (m: MonteCarlo)
    ensures
        m.sent == sent,
        m.recovered == frames_in(stream@).len(),
        m.undetected == strangers(frames_in(stream@)),
        m.undetected <= m.recovered,
{
    let frames = frames_of(stream);
    let ghost all = frames_in(stream@);
    let mut undetected: u64 = 0;
    let mut i: usize = 0;
    while i < frames.len()
        invariant
            i <= frames@.len(),
            all == views(frames@),
            undetected == strangers(all.subrange(0, i as int)),
            undetected <= i,
        decreases frames@.len() - i,
    {
        assert(all[i as int] == frames@[i as int]@);
        let kind: u8 = frames[i].header.kind;
        if kind != frame_type::FEATURE_REPORT && kind != frame_type::CSI_SNAPSHOT {
            undetected += 1;
        }
        i += 1;
        assert(all.subrange(0, i as int).drop_last() =~= all.subrange(0, i - 1));
    }
    assert(all.subrange(0, all.len() as int) =~= all);
    MonteCarlo { sent: sent as u64, recovered: frames.len() as u64, undetected }
}

} // verus!

//! Payload structures and their encodings.

use vstd::prelude::*;

use crate::wire::{
    from_i8, get_i16, get_u16, get_u32, i16_at, i16_bytes, i8_of_u8, put_i16, put_u32,
    to_i8, u16_at, u32_at, u32_bytes, u8_of_i8, F32Bits,
};

use crate::protocol::{MAX_PCA, N_IQ, N_SPEC_BINS, N_SUBCARRIERS};

verus! {

/// TX to RX measurement packet payload.
#[derive(Clone, Copy, Debug, PartialEq, Eq, Structural)]
pub struct DataPayload {
    pub tx_power_db: u8,
    pub flags: u8,
}

/// Encoded size of a measurement payload.
pub const DATA_SIZE: usize = 2;

impl Default for DataPayload {
    fn default() -> (d: Self)
        ensures
            d == (DataPayload { tx_power_db: 0, flags: 0 }),
    {
        Self { tx_power_db: 0, flags: 0 }
    }
}

/// RX to TX compact feature report. Real-valued fields hold the bit pattern
/// that travels on the wire.
#[derive(Clone, Copy, Debug, PartialEq)]
pub struct FeatureReport {
    /// Last TX seq this report covers.
    pub seq: u32,
    /// Frames processed inside the window.
    pub n_frames: u32,
    /// Expected-but-unavailable frames in the window.
    pub n_missing: u32,
    /// dBm.
    pub rssi: i16,
    /// dB.
    pub snr: i8,
    /// 0..100.
    pub csi_quality: u8,
    /// 0..100, higher is more clipped.
    pub sat_score: u8,
    /// 0..100.
    pub dyn_range: u8,
    pub flags: u8,
    /// Mean amplitude across active subcarriers.
    pub amp_mean: F32Bits,
    pub amp_std: F32Bits,
    /// Energy in the human-motion band, windowed.
    pub motion_energy: F32Bits,
    /// 0..1, higher is more broadband.
    pub spectral_entropy: F32Bits,
    pub dominant_freq_hz: F32Bits,
    /// Circular deviation of the sanitized phase.
    pub phase_dispersion: F32Bits,
    /// Mean deviation from the empty-room baseline over active subcarriers: a
    /// persistent deviation with low motion energy means static presence.
    pub baseline_dev: F32Bits,
    pub pca_scores: [F32Bits; MAX_PCA],
}

/// Encoded size of a feature report.
pub const FEATURE_SIZE: usize = 79;

/// RX to TX per-subcarrier CSI snapshot: the low-rate observation behind the
/// dashboard's waterfall and spectrogram.
#[derive(Clone, Copy, Debug, PartialEq)]
pub struct CsiSnapshot {
    /// Last TX seq this snapshot covers (pairs with `FeatureReport::seq`).
    pub seq: u32,
    pub rssi: i16,
    pub snr: i8,
    pub csi_quality: u8,
    pub noise_floor: F32Bits,
    pub flags: u8,
    /// Active subcarrier count; trailing entries are unused.
    pub n_sub: u8,
    pub reserved: u8,
    /// Sanitized complex CSI per subcarrier, interleaved I and Q.
    pub iq: [i16; N_IQ],
    /// Baseline-referenced normalized amplitude per subcarrier (0..255).
    pub amp_norm: [u8; N_SUBCARRIERS],
    /// Current motion-spectrum column (0..255), one bin per frequency.
    pub spec: [u8; N_SPEC_BINS],
}

/// Encoded size of a snapshot: 15 head bytes, 224 of I/Q, 56 of amplitudes and
/// 64 of spectrum.
pub const SNAPSHOT_SIZE: usize = 359;

/// TX to RX calibration command payload.
#[derive(Clone, Copy, Debug, PartialEq, Eq, Structural)]
pub struct CalCmd {
    /// One of `cal_stage`.
    pub stage: u8,
    /// One of `cal_action`.
    pub action: u8,
    pub collect_ms: u32,
    /// Proposed TX power (RF power sweep).
    pub tx_power_db: i16,
}

/// Encoded size of a calibration command.
pub const CAL_CMD_SIZE: usize = 8;

/// RX to TX calibration response payload.
#[derive(Clone, Copy, Debug, PartialEq, Eq, Structural)]
pub struct CalResp {
    pub stage: u8,
    /// One of `cal_result`.
    pub result: u8,
    pub rssi: i16,
    pub snr: i8,
    pub csi_quality: u8,
    pub sat_score: u8,
    pub dyn_range: u8,
    pub reserved: u8,
    pub noise_floor: F32Bits,
    pub n_samples: u32,
}

/// Encoded size of a calibration response.
pub const CAL_RESP_SIZE: usize = 17;

/// Diagnostics status payload.
#[derive(Clone, Copy, Debug, PartialEq, Eq, Structural)]
pub struct Status {
    pub uptime_s: u32,
    pub tx_seq: u32,
    pub rx_packets: u32,
    pub rx_drops: u32,
    pub heap_free: u16,
    pub wifi_connected: u8,
    pub csi_enabled: u8,
    pub paired_frames_per_s: u8,
    pub reserved: u8,
}

/// Encoded size of a status payload.
pub const STATUS_SIZE: usize = 22;

/// The encodings of 32-bit values one after the other.
pub open spec fn u32s_bytes(v: Seq<u32>) -> Seq<u8> {
    Seq::new(4 * v.len(), |k: int| u32_bytes(v[k / 4])[k % 4])
}

/// The encodings of signed 16-bit values one after the other.
pub open spec fn i16s_bytes(v: Seq<i16>) -> Seq<u8> {
    Seq::new(2 * v.len(), |k: int| i16_bytes(v[k / 2])[k % 2])
}

pub open spec fn data_bytes(d: DataPayload) -> Seq<u8> {
    seq![d.tx_power_db, d.flags]
}

pub open spec fn data_at(p: Seq<u8>) -> DataPayload {
    DataPayload { tx_power_db: p[0], flags: p[1] }
}

/// The 19 bytes in front of a report's real-valued fields.
pub open spec fn feature_head_bytes(r: FeatureReport) -> Seq<u8> {
    u32_bytes(r.seq) + u32_bytes(r.n_frames) + u32_bytes(r.n_missing) + i16_bytes(r.rssi) + seq![
        u8_of_i8(r.snr),
        r.csi_quality,
        r.sat_score,
        r.dyn_range,
        r.flags,
    ]
}

/// The seven real-valued scalars of a report, in wire order.
pub open spec fn feature_reals(r: FeatureReport) -> Seq<u32> {
    seq![
        r.amp_mean,
        r.amp_std,
        r.motion_energy,
        r.spectral_entropy,
        r.dominant_freq_hz,
        r.phase_dispersion,
        r.baseline_dev,
    ]
}

/// The encoded report.
pub open spec fn feature_report_bytes(r: FeatureReport) -> Seq<u8> {
    feature_head_bytes(r) + u32s_bytes(feature_reals(r)) + u32s_bytes(r.pca_scores@)
}

/// `r` is the report that `p` starts with.
pub open spec fn feature_report_at(p: Seq<u8>, r: FeatureReport) -> bool {
    &&& r.seq == u32_at(p, 0)
    &&& r.n_frames == u32_at(p, 4)
    &&& r.n_missing == u32_at(p, 8)
    &&& r.rssi == i16_at(p, 12)
    &&& r.snr == i8_of_u8(p[14])
    &&& r.csi_quality == p[15]
    &&& r.sat_score == p[16]
    &&& r.dyn_range == p[17]
    &&& r.flags == p[18]
    &&& r.amp_mean == u32_at(p, 19)
    &&& r.amp_std == u32_at(p, 23)
    &&& r.motion_energy == u32_at(p, 27)
    &&& r.spectral_entropy == u32_at(p, 31)
    &&& r.dominant_freq_hz == u32_at(p, 35)
    &&& r.phase_dispersion == u32_at(p, 39)
    &&& r.baseline_dev == u32_at(p, 43)
    &&& forall|k: int| 0 <= k < 8 ==> #[trigger] r.pca_scores@[k] == u32_at(p, 47 + 4 * k)
}

/// The 15 bytes in front of a snapshot's arrays.
pub open spec fn snapshot_head_bytes(s: CsiSnapshot) -> Seq<u8> {
    u32_bytes(s.seq) + i16_bytes(s.rssi) + seq![u8_of_i8(s.snr), s.csi_quality] + u32_bytes(
        s.noise_floor,
    ) + seq![s.flags, s.n_sub, s.reserved]
}

/// The encoded snapshot.
pub open spec fn csi_snapshot_bytes(s: CsiSnapshot) -> Seq<u8> {
    snapshot_head_bytes(s) + i16s_bytes(s.iq@) + s.amp_norm@ + s.spec@
}

/// `s` is the snapshot that `p` starts with.
pub open spec fn csi_snapshot_at(p: Seq<u8>, s: CsiSnapshot) -> bool {
    &&& s.seq == u32_at(p, 0)
    &&& s.rssi == i16_at(p, 4)
    &&& s.snr == i8_of_u8(p[6])
    &&& s.csi_quality == p[7]
    &&& s.noise_floor == u32_at(p, 8)
    &&& s.flags == p[12]
    &&& s.n_sub == p[13]
    &&& s.reserved == p[14]
    &&& forall|k: int| 0 <= k < 112 ==> #[trigger] s.iq@[k] == i16_at(p, 15 + 2 * k)
    &&& s.amp_norm@ == p.subrange(239, 295)
    &&& s.spec@ == p.subrange(295, 359)
}

pub open spec fn cal_cmd_bytes(c: CalCmd) -> Seq<u8> {
    seq![c.stage, c.action] + u32_bytes(c.collect_ms) + i16_bytes(c.tx_power_db)
}

pub open spec fn cal_cmd_at(p: Seq<u8>) -> CalCmd {
    CalCmd {
        stage: p[0],
        action: p[1],
        collect_ms: u32_at(p, 2),
        tx_power_db: i16_at(p, 6),
    }
}

pub open spec fn cal_resp_bytes(r: CalResp) -> Seq<u8> {
    seq![r.stage, r.result] + i16_bytes(r.rssi) + seq![
        u8_of_i8(r.snr),
        r.csi_quality,
        r.sat_score,
        r.dyn_range,
        r.reserved,
    ] + u32_bytes(r.noise_floor) + u32_bytes(r.n_samples)
}

pub open spec fn cal_resp_at(p: Seq<u8>) -> CalResp {
    CalResp {
        stage: p[0],
        result: p[1],
        rssi: i16_at(p, 2),
        snr: i8_of_u8(p[4]),
        csi_quality: p[5],
        sat_score: p[6],
        dyn_range: p[7],
        reserved: p[8],
        noise_floor: u32_at(p, 9),
        n_samples: u32_at(p, 13),
    }
}

pub open spec fn status_at(p: Seq<u8>) -> Status {
    Status {
        uptime_s: u32_at(p, 0),
        tx_seq: u32_at(p, 4),
        rx_packets: u32_at(p, 8),
        rx_drops: u32_at(p, 12),
        heap_free: u16_at(p, 16),
        wifi_connected: p[18],
        csi_enabled: p[19],
        paired_frames_per_s: p[20],
        reserved: p[21],
    }
}

/// A calibration command is read back from its encoding.
pub proof fn cal_cmd_round_trip(c: CalCmd, rest: Seq<u8>)
    ensures
        cal_cmd_bytes(c).len() == 8,
        cal_cmd_at(cal_cmd_bytes(c) + rest) == c,
{
    let p = cal_cmd_bytes(c) + rest;
    assert(p.subrange(2, 6) =~= u32_bytes(c.collect_ms));
    assert(p.subrange(6, 8) =~= i16_bytes(c.tx_power_db));
    crate::wire::u32_round_trip(p, 2, c.collect_ms);
    crate::wire::u16_round_trip(p, 6, crate::wire::u16_of_i16(c.tx_power_db));
    crate::wire::i16_round_trip(c.tx_power_db);
    assert(p[0] == c.stage && p[1] == c.action);
}

/// A calibration response is read back from its encoding.
pub proof fn cal_resp_round_trip(r: CalResp, rest: Seq<u8>)
    ensures
        cal_resp_bytes(r).len() == 17,
        cal_resp_at(cal_resp_bytes(r) + rest) == r,
{
    let p = cal_resp_bytes(r) + rest;
    assert(p.subrange(2, 4) =~= i16_bytes(r.rssi));
    assert(p.subrange(9, 13) =~= u32_bytes(r.noise_floor));
    assert(p.subrange(13, 17) =~= u32_bytes(r.n_samples));
    crate::wire::u16_round_trip(p, 2, crate::wire::u16_of_i16(r.rssi));
    crate::wire::i16_round_trip(r.rssi);
    crate::wire::u32_round_trip(p, 9, r.noise_floor);
    crate::wire::u32_round_trip(p, 13, r.n_samples);
    crate::wire::i8_round_trip(r.snr);
    assert(p[0] == r.stage && p[1] == r.result && p[4] == u8_of_i8(r.snr) && p[5] == r.csi_quality
        && p[6] == r.sat_score && p[7] == r.dyn_range && p[8] == r.reserved);
}

/// A report is read back from its encoding.
pub proof fn feature_report_round_trip(r: FeatureReport, rest: Seq<u8>)
    ensures
        feature_report_bytes(r).len() == 79,
        feature_report_at(feature_report_bytes(r) + rest, r),
{
    let p = feature_report_bytes(r) + rest;
    let reals = feature_reals(r);
    assert(feature_head_bytes(r).len() == 19);
    assert(p.subrange(0, 4) =~= u32_bytes(r.seq));
    assert(p.subrange(4, 8) =~= u32_bytes(r.n_frames));
    assert(p.subrange(8, 12) =~= u32_bytes(r.n_missing));
    assert(p.subrange(12, 14) =~= i16_bytes(r.rssi));
    crate::wire::u32_round_trip(p, 0, r.seq);
    crate::wire::u32_round_trip(p, 4, r.n_frames);
    crate::wire::u32_round_trip(p, 8, r.n_missing);
    crate::wire::u16_round_trip(p, 12, crate::wire::u16_of_i16(r.rssi));
    crate::wire::i16_round_trip(r.rssi);
    crate::wire::i8_round_trip(r.snr);
    assert(p[14] == u8_of_i8(r.snr) && p[15] == r.csi_quality && p[16] == r.sat_score && p[17]
        == r.dyn_range && p[18] == r.flags);
    assert forall|k: int| 0 <= k < 7 implies u32_at(p, 19 + 4 * k) == #[trigger] reals[k] by {
        u32s_read_back(p, 19, reals, k);
    }
    assert(reals[0] == r.amp_mean && reals[1] == r.amp_std && reals[2] == r.motion_energy
        && reals[3] == r.spectral_entropy && reals[4] == r.dominant_freq_hz && reals[5]
        == r.phase_dispersion && reals[6] == r.baseline_dev);
    assert forall|k: int| 0 <= k < 8 implies #[trigger] r.pca_scores@[k] == u32_at(
        p,
        47 + 4 * k,
    ) by {
        u32s_read_back(p, 47, r.pca_scores@, k);
    }
}

/// Each of a run of 32-bit values is read back from its place.
pub proof fn u32s_read_back(p: Seq<u8>, at: int, v: Seq<u32>, k: int)
    requires
        0 <= at,
        at + 4 * v.len() <= p.len(),
        forall|j: int| 0 <= j < 4 * v.len() ==> p[at + j] == #[trigger] u32s_bytes(v)[j],
        0 <= k < v.len(),
    ensures
        u32_at(p, at + 4 * k) == v[k],
{
    let w = p.subrange(at + 4 * k, at + 4 * k + 4);
    assert(w =~= u32_bytes(v[k])) by {
        assert forall|j: int| 0 <= j < 4 implies w[j] == u32_bytes(v[k])[j] by {
            assert(p[at + (4 * k + j)] == u32s_bytes(v)[4 * k + j]);
            assert((4 * k + j) / 4 == k && (4 * k + j) % 4 == j);
        }
    }
    crate::wire::u32_round_trip(p, at + 4 * k, v[k]);
}

/// A snapshot is read back from its encoding.
pub proof fn csi_snapshot_round_trip(s: CsiSnapshot, rest: Seq<u8>)
    ensures
        csi_snapshot_bytes(s).len() == 359,
        csi_snapshot_at(csi_snapshot_bytes(s) + rest, s),
{
    let p = csi_snapshot_bytes(s) + rest;
    assert(snapshot_head_bytes(s).len() == 15);
    assert(p.subrange(0, 4) =~= u32_bytes(s.seq));
    assert(p.subrange(4, 6) =~= i16_bytes(s.rssi));
    assert(p.subrange(8, 12) =~= u32_bytes(s.noise_floor));
    crate::wire::u32_round_trip(p, 0, s.seq);
    crate::wire::u16_round_trip(p, 4, crate::wire::u16_of_i16(s.rssi));
    crate::wire::i16_round_trip(s.rssi);
    crate::wire::i8_round_trip(s.snr);
    crate::wire::u32_round_trip(p, 8, s.noise_floor);
    assert(p[6] == u8_of_i8(s.snr) && p[7] == s.csi_quality && p[12] == s.flags && p[13] == s.n_sub
        && p[14] == s.reserved);
    assert forall|k: int| 0 <= k < 112 implies #[trigger] s.iq@[k] == i16_at(p, 15 + 2 * k) by {
        let at = 15 + 2 * k;
        assert(p.subrange(at, at + 2) =~= i16_bytes(s.iq@[k])) by {
            assert forall|j: int| 0 <= j < 2 implies p.subrange(at, at + 2)[j] == i16_bytes(
                s.iq@[k],
            )[j] by {
                assert(p[at + j] == i16s_bytes(s.iq@)[2 * k + j]);
                assert((2 * k + j) / 2 == k && (2 * k + j) % 2 == j);
            }
        }
        crate::wire::u16_round_trip(p, at, crate::wire::u16_of_i16(s.iq@[k]));
        crate::wire::i16_round_trip(s.iq@[k]);
    }
    assert(s.amp_norm@ =~= p.subrange(239, 295));
    assert(s.spec@ =~= p.subrange(295, 359));
}

/// Where the fields of a report stand in its encoding.
pub proof fn feature_report_layout(r: FeatureReport)
    ensures
        ({
            let p = feature_report_bytes(r);
            &&& u32_at(p, 0) == r.seq
            &&& u32_at(p, 4) == r.n_frames
            &&& u32_at(p, 8) == r.n_missing
            &&& i16_at(p, 12) == r.rssi
            &&& i8_of_u8(p[14]) == r.snr
            &&& p[15] == r.csi_quality
            &&& p[16] == r.sat_score
            &&& p[17] == r.dyn_range
            &&& p[18] == r.flags
            &&& u32_at(p, 19) == r.amp_mean
            &&& u32_at(p, 23) == r.amp_std
            &&& u32_at(p, 27) == r.motion_energy
            &&& u32_at(p, 31) == r.spectral_entropy
            &&& u32_at(p, 35) == r.dominant_freq_hz
            &&& u32_at(p, 39) == r.phase_dispersion
            &&& u32_at(p, 43) == r.baseline_dev
            &&& forall|k: int| 0 <= k < 8 ==> u32_at(p, 47 + 4 * k) == #[trigger] r.pca_scores@[k]
        }),
{
    feature_report_round_trip(r, Seq::empty());
    assert(feature_report_bytes(r) + Seq::empty() =~= feature_report_bytes(r));
}

/// Two reports that are read from the same bytes are the same.
pub proof fn a_report_is_read_one_way(p: Seq<u8>, a: FeatureReport, b: FeatureReport)
    requires
        feature_report_at(p, a),
        feature_report_at(p, b),
    ensures
        a == b,
{
    assert forall|k: int| 0 <= k < 8 implies a.pca_scores@[k] == b.pca_scores@[k] by {
        assert(a.pca_scores@[k] == u32_at(p, 47 + 4 * k));
    }
    assert(a.pca_scores =~= b.pca_scores);
}

/// Where the fields of a snapshot stand in its encoding.
pub proof fn csi_snapshot_layout(s: CsiSnapshot)
    ensures
        ({
            let p = csi_snapshot_bytes(s);
            &&& u32_at(p, 0) == s.seq
            &&& i16_at(p, 4) == s.rssi
            &&& i8_of_u8(p[6]) == s.snr
            &&& p[7] == s.csi_quality
            &&& u32_at(p, 8) == s.noise_floor
            &&& p[12] == s.flags
            &&& p[13] == s.n_sub
            &&& p[14] == s.reserved
            &&& forall|k: int| 0 <= k < 112 ==> i16_at(p, 15 + 2 * k) == #[trigger] s.iq@[k]
            &&& p.subrange(239, 295) == s.amp_norm@
            &&& p.subrange(295, 359) == s.spec@
        }),
{
    csi_snapshot_round_trip(s, Seq::empty());
    assert(csi_snapshot_bytes(s) + Seq::empty() =~= csi_snapshot_bytes(s));
}

/// Where the fields of commands, responses and measurement payloads stand in
/// their encodings.
pub proof fn command_layouts(c: CalCmd, r: CalResp, d: DataPayload)
    ensures
        ({
            let p = cal_cmd_bytes(c);
            &&& p[0] == c.stage
            &&& p[1] == c.action
            &&& u32_at(p, 2) == c.collect_ms
            &&& i16_at(p, 6) == c.tx_power_db
        }),
        ({
            let p = cal_resp_bytes(r);
            &&& p[0] == r.stage
            &&& p[1] == r.result
            &&& i16_at(p, 2) == r.rssi
            &&& i8_of_u8(p[4]) == r.snr
            &&& p[5] == r.csi_quality
            &&& p[6] == r.sat_score
            &&& p[7] == r.dyn_range
            &&& p[8] == r.reserved
            &&& u32_at(p, 9) == r.noise_floor
            &&& u32_at(p, 13) == r.n_samples
        }),
        data_bytes(d).len() == 2 && data_bytes(d)[0] == d.tx_power_db && data_bytes(d)[1]
            == d.flags,
        data_at(data_bytes(d)) == d,
{
    cal_cmd_round_trip(c, Seq::empty());
    cal_resp_round_trip(r, Seq::empty());
    assert(cal_cmd_bytes(c) + Seq::empty() =~= cal_cmd_bytes(c));
    assert(cal_resp_bytes(r) + Seq::empty() =~= cal_resp_bytes(r));
}

/// A status is read from its fields written one after the other.
pub proof fn status_is_read_field_by_field(s: Status, rest: Seq<u8>)
    ensures
        status_at(
            u32_bytes(s.uptime_s) + u32_bytes(s.tx_seq) + u32_bytes(s.rx_packets) + u32_bytes(
                s.rx_drops,
            ) + crate::wire::u16_bytes(s.heap_free) + seq![
                s.wifi_connected,
                s.csi_enabled,
                s.paired_frames_per_s,
                s.reserved,
            ] + rest,
        ) == s,
{
    let p = u32_bytes(s.uptime_s) + u32_bytes(s.tx_seq) + u32_bytes(s.rx_packets) + u32_bytes(
        s.rx_drops,
    ) + crate::wire::u16_bytes(s.heap_free) + seq![
        s.wifi_connected,
        s.csi_enabled,
        s.paired_frames_per_s,
        s.reserved,
    ] + rest;
    assert(p.subrange(0, 4) =~= u32_bytes(s.uptime_s));
    assert(p.subrange(4, 8) =~= u32_bytes(s.tx_seq));
    assert(p.subrange(8, 12) =~= u32_bytes(s.rx_packets));
    assert(p.subrange(12, 16) =~= u32_bytes(s.rx_drops));
    assert(p.subrange(16, 18) =~= crate::wire::u16_bytes(s.heap_free));
    crate::wire::u32_round_trip(p, 0, s.uptime_s);
    crate::wire::u32_round_trip(p, 4, s.tx_seq);
    crate::wire::u32_round_trip(p, 8, s.rx_packets);
    crate::wire::u32_round_trip(p, 12, s.rx_drops);
    crate::wire::u16_round_trip(p, 16, s.heap_free);
}

impl Default for FeatureReport {
    fn default() -> (r: Self)
        ensures
            r.seq == 0 && r.n_frames == 0 && r.n_missing == 0 && r.rssi == 0 && r.snr == 0,
            r.csi_quality == 0 && r.sat_score == 0 && r.dyn_range == 0 && r.flags == 0,
            feature_reals(r) == Seq::new(7, |i: int| 0u32),
            r.pca_scores@ == Seq::new(8, |i: int| 0u32),
    {
        Self {
            seq: 0,
            n_frames: 0,
            n_missing: 0,
            rssi: 0,
            snr: 0,
            csi_quality: 0,
            sat_score: 0,
            dyn_range: 0,
            flags: 0,
            amp_mean: 0,
            amp_std: 0,
            motion_energy: 0,
            spectral_entropy: 0,
            dominant_freq_hz: 0,
            phase_dispersion: 0,
            baseline_dev: 0,
            pca_scores: [0u32; 8],
        }
    }
}

impl Default for CsiSnapshot {
    fn default() -> (s: Self)
        ensures
            s.seq == 0 && s.rssi == 0 && s.snr == 0 && s.csi_quality == 0 && s.noise_floor == 0,
            s.flags == 0 && s.n_sub == 0 && s.reserved == 0,
            s.iq@ == Seq::new(112, |i: int| 0i16),
            s.amp_norm@ == Seq::new(56, |i: int| 0u8),
            s.spec@ == Seq::new(64, |i: int| 0u8),
    {
        Self {
            seq: 0,
            rssi: 0,
            snr: 0,
            csi_quality: 0,
            noise_floor: 0,
            flags: 0,
            n_sub: 0,
            reserved: 0,
            iq: [0i16; 112],
            amp_norm: [0u8; 56],
            spec: [0u8; 64],
        }
    }
}

impl Default for CalCmd {
    fn default() -> (c: Self)
        ensures
            c == (CalCmd { stage: 0, action: 0, collect_ms: 0, tx_power_db: 0 }),
    {
        Self { stage: 0, action: 0, collect_ms: 0, tx_power_db: 0 }
    }
}

/// The all-zero response.
pub open spec fn blank_resp() -> CalResp {
    CalResp {
        stage: 0,
        result: 0,
        rssi: 0,
        snr: 0,
        csi_quality: 0,
        sat_score: 0,
        dyn_range: 0,
        reserved: 0,
        noise_floor: 0,
        n_samples: 0,
    }
}

impl Default for CalResp {
    fn default() -> (r: Self)
        ensures
            r == blank_resp(),
    {
        Self {
            stage: 0,
            result: 0,
            rssi: 0,
            snr: 0,
            csi_quality: 0,
            sat_score: 0,
            dyn_range: 0,
            reserved: 0,
            noise_floor: 0,
            n_samples: 0,
        }
    }
}

impl Default for Status {
    fn default() -> (s: Self)
        ensures
            s == (Status {
                uptime_s: 0,
                tx_seq: 0,
                rx_packets: 0,
                rx_drops: 0,
                heap_free: 0,
                wifi_connected: 0,
                csi_enabled: 0,
                paired_frames_per_s: 0,
                reserved: 0,
            }),
    {
        Self {
            uptime_s: 0,
            tx_seq: 0,
            rx_packets: 0,
            rx_drops: 0,
            heap_free: 0,
            wifi_connected: 0,
            csi_enabled: 0,
            paired_frames_per_s: 0,
            reserved: 0,
        }
    }
}

/// Deserializes a measurement payload, if there are bytes enough.
pub fn parse_data_payload(payload: &[u8]) -> (r: Option<DataPayload>)
    ensures
        r == if payload@.len() >= 2 { Some(data_at(payload@)) } else { None },
{
    if payload.len() < DATA_SIZE {
        return None;
    }
    Some(DataPayload { tx_power_db: payload[0], flags: payload[1] })
}

/// Deserializes a CSI snapshot payload, if there are bytes enough.
pub fn parse_csi_snapshot(payload: &[u8]) -> (r: Option<CsiSnapshot>)
    ensures
        match r {
            Some(s) => payload@.len() >= 359 && csi_snapshot_at(payload@, s),
            None => payload@.len() < 359,
        },
{
    if payload.len() < SNAPSHOT_SIZE {
        return None;
    }
    let mut iq: [i16; N_IQ] = [0i16; 112];
    let mut i: usize = 0;
    while i < 112
        invariant
            i <= 112,
            payload@.len() >= 359,
            forall|k: int| 0 <= k < i ==> #[trigger] iq@[k] == i16_at(payload@, 15 + 2 * k),
        decreases 112 - i,
    {
        iq[i] = get_i16(payload, 15 + 2 * i);
        i += 1;
    }
    let mut amp_norm: [u8; N_SUBCARRIERS] = [0u8; 56];
    let mut j: usize = 0;
    while j < 56
        invariant
            j <= 56,
            payload@.len() >= 359,
            forall|k: int| 0 <= k < j ==> #[trigger] amp_norm@[k] == payload@[239 + k],
        decreases 56 - j,
    {
        amp_norm[j] = payload[239 + j];
        j += 1;
    }
    let mut spec_bins: [u8; N_SPEC_BINS] = [0u8; 64];
    let mut m: usize = 0;
    while m < 64
        invariant
            m <= 64,
            payload@.len() >= 359,
            forall|k: int| 0 <= k < m ==> #[trigger] spec_bins@[k] == payload@[295 + k],
        decreases 64 - m,
    {
        spec_bins[m] = payload[295 + m];
        m += 1;
    }
    assert(amp_norm@ =~= payload@.subrange(239, 295));
    assert(spec_bins@ =~= payload@.subrange(295, 359));
    Some(
        CsiSnapshot {
            seq: get_u32(payload, 0),
            rssi: get_i16(payload, 4),
            snr: to_i8(payload[6]),
            csi_quality: payload[7],
            noise_floor: get_u32(payload, 8),
            flags: payload[12],
            n_sub: payload[13],
            reserved: payload[14],
            iq,
            amp_norm,
            spec: spec_bins,
        },
    )
}

/// Deserializes a feature report payload, if there are bytes enough.
pub fn parse_feature_report(payload: &[u8]) -> (r: Option<FeatureReport>)
    ensures
        match r {
            Some(f) => payload@.len() >= 79 && feature_report_at(payload@, f),
            None => payload@.len() < 79,
        },
{
    if payload.len() < FEATURE_SIZE {
        return None;
    }
    let mut pca_scores: [F32Bits; MAX_PCA] = [0u32; 8];
    let mut i: usize = 0;
    while i < 8
        invariant
            i <= 8,
            payload@.len() >= 79,
            forall|k: int| 0 <= k < i ==> #[trigger] pca_scores@[k] == u32_at(payload@, 47 + 4 * k),
        decreases 8 - i,
    {
        pca_scores[i] = get_u32(payload, 47 + 4 * i);
        i += 1;
    }
    Some(
        FeatureReport {
            seq: get_u32(payload, 0),
            n_frames: get_u32(payload, 4),
            n_missing: get_u32(payload, 8),
            rssi: get_i16(payload, 12),
            snr: to_i8(payload[14]),
            csi_quality: payload[15],
            sat_score: payload[16],
            dyn_range: payload[17],
            flags: payload[18],
            amp_mean: get_u32(payload, 19),
            amp_std: get_u32(payload, 23),
            motion_energy: get_u32(payload, 27),
            spectral_entropy: get_u32(payload, 31),
            dominant_freq_hz: get_u32(payload, 35),
            phase_dispersion: get_u32(payload, 39),
            baseline_dev: get_u32(payload, 43),
            pca_scores,
        },
    )
}

/// Deserializes a calibration command, if there are bytes enough.
pub fn parse_cal_cmd(payload: &[u8]) -> (r: Option<CalCmd>)
    ensures
        r == if payload@.len() >= 8 { Some(cal_cmd_at(payload@)) } else { None },
{
    if payload.len() < CAL_CMD_SIZE {
        return None;
    }
    Some(
        CalCmd {
            stage: payload[0],
            action: payload[1],
            collect_ms: get_u32(payload, 2),
            tx_power_db: get_i16(payload, 6),
        },
    )
}

/// Deserializes a calibration response, if there are bytes enough.
pub fn parse_cal_resp(payload: &[u8]) -> (r: Option<CalResp>)
    ensures
        r == if payload@.len() >= 17 { Some(cal_resp_at(payload@)) } else { None },
{
    if payload.len() < CAL_RESP_SIZE {
        return None;
    }
    Some(
        CalResp {
            stage: payload[0],
            result: payload[1],
            rssi: get_i16(payload, 2),
            snr: to_i8(payload[4]),
            csi_quality: payload[5],
            sat_score: payload[6],
            dyn_range: payload[7],
            reserved: payload[8],
            noise_floor: get_u32(payload, 9),
            n_samples: get_u32(payload, 13),
        },
    )
}

/// Deserializes a status payload, if there are bytes enough.
pub fn parse_status(payload: &[u8]) -> (r: Option<Status>)
    ensures
        r == if payload@.len() >= 22 { Some(status_at(payload@)) } else { None },
{
    if payload.len() < STATUS_SIZE {
        return None;
    }
    Some(
        Status {
            uptime_s: get_u32(payload, 0),
            tx_seq: get_u32(payload, 4),
            rx_packets: get_u32(payload, 8),
            rx_drops: get_u32(payload, 12),
            heap_free: get_u16(payload, 16),
            wifi_connected: payload[18],
            csi_enabled: payload[19],
            paired_frames_per_s: payload[20],
            reserved: payload[21],
        },
    )
}

/// Encodes a measurement payload.
pub fn encode_data_payload(d: &DataPayload) -> (out: Vec<u8>)
    ensures
        out@ == data_bytes(*d),
{
    let mut out: Vec<u8> = Vec::new();
    out.push(d.tx_power_db);
    out.push(d.flags);
    out
}

/// Encodes a feature report.
pub fn encode_feature_report(r: &FeatureReport) -> (out: Vec<u8>)
    ensures
        out@ == feature_report_bytes(*r),
{
    let mut out: Vec<u8> = Vec::new();
    put_u32(&mut out, r.seq);
    put_u32(&mut out, r.n_frames);
    put_u32(&mut out, r.n_missing);
    put_i16(&mut out, r.rssi);
    out.push(from_i8(r.snr));
    out.push(r.csi_quality);
    out.push(r.sat_score);
    out.push(r.dyn_range);
    out.push(r.flags);
    assert(out@ =~= feature_head_bytes(*r));
    put_u32(&mut out, r.amp_mean);
    put_u32(&mut out, r.amp_std);
    put_u32(&mut out, r.motion_energy);
    put_u32(&mut out, r.spectral_entropy);
    put_u32(&mut out, r.dominant_freq_hz);
    put_u32(&mut out, r.phase_dispersion);
    put_u32(&mut out, r.baseline_dev);
    assert(out@ =~= feature_head_bytes(*r) + u32s_bytes(feature_reals(*r)));
    put_u32s(&mut out, r.pca_scores.as_slice());
    out
}

/// Appends 32-bit values one after the other.
pub fn put_u32s(out: &mut Vec<u8>, v: &[u32])
    ensures
        final(out)@ == old(out)@ + u32s_bytes(v@),
{
    let ghost before = out@;
    let mut i: usize = 0;
    while i < v.len()
        invariant
            i <= v@.len(),
            out@ == before + u32s_bytes(v@.subrange(0, i as int)),
        decreases v@.len() - i,
    {
        put_u32(out, v[i]);
        i += 1;
        assert(u32s_bytes(v@.subrange(0, i as int)) =~= u32s_bytes(v@.subrange(0, i - 1))
            + u32_bytes(v@[i - 1]));
    }
    assert(v@.subrange(0, v@.len() as int) =~= v@);
}

/// Appends signed 16-bit values one after the other.
pub fn put_i16s(out: &mut Vec<u8>, v: &[i16])
    ensures
        final(out)@ == old(out)@ + i16s_bytes(v@),
{
    let ghost before = out@;
    let mut i: usize = 0;
    while i < v.len()
        invariant
            i <= v@.len(),
            out@ == before + i16s_bytes(v@.subrange(0, i as int)),
        decreases v@.len() - i,
    {
        put_i16(out, v[i]);
        i += 1;
        assert(i16s_bytes(v@.subrange(0, i as int)) =~= i16s_bytes(v@.subrange(0, i - 1))
            + i16_bytes(v@[i - 1]));
    }
    assert(v@.subrange(0, v@.len() as int) =~= v@);
}

/// Encodes a CSI snapshot.
pub fn encode_csi_snapshot(s: &CsiSnapshot) -> (out: Vec<u8>)
    ensures
        out@ == csi_snapshot_bytes(*s),
{
    let mut out: Vec<u8> = Vec::new();
    put_u32(&mut out, s.seq);
    put_i16(&mut out, s.rssi);
    out.push(from_i8(s.snr));
    out.push(s.csi_quality);
    put_u32(&mut out, s.noise_floor);
    out.push(s.flags);
    out.push(s.n_sub);
    out.push(s.reserved);
    assert(out@ =~= snapshot_head_bytes(*s));
    put_i16s(&mut out, s.iq.as_slice());
    crate::wire::put_slice(&mut out, s.amp_norm.as_slice());
    crate::wire::put_slice(&mut out, s.spec.as_slice());
    out
}

/// Encodes a calibration command.
pub fn encode_cal_cmd(c: &CalCmd) -> (out: Vec<u8>)
    ensures
        out@ == cal_cmd_bytes(*c),
{
    let mut out: Vec<u8> = Vec::new();
    out.push(c.stage);
    out.push(c.action);
    put_u32(&mut out, c.collect_ms);
    put_i16(&mut out, c.tx_power_db);
    assert(out@ =~= cal_cmd_bytes(*c));
    out
}

/// Encodes a calibration response.
pub fn encode_cal_resp(r: &CalResp) -> (out: Vec<u8>)
    ensures
        out@ == cal_resp_bytes(*r),
{
    let mut out: Vec<u8> = Vec::new();
    out.push(r.stage);
    out.push(r.result);
    put_i16(&mut out, r.rssi);
    out.push(from_i8(r.snr));
    out.push(r.csi_quality);
    out.push(r.sat_score);
    out.push(r.dyn_range);
    out.push(r.reserved);
    put_u32(&mut out, r.noise_floor);
    put_u32(&mut out, r.n_samples);
    assert(out@ =~= cal_resp_bytes(*r));
    out
}

} // verus!

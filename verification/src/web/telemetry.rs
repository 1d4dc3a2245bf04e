//! Compact binary telemetry for the live dashboard.
//!
//! Three frame kinds travel to connected dashboards, plus a JSON snapshot for
//! plain HTTP clients. All integers are little-endian, all matrices are 8-bit
//! values packed time-major. Every frame starts with the same header: magic,
//! version and kind.

use vstd::prelude::*;
use vstd::string::StringExecFns;

use crate::features::{state_name, OccupancyState};
use crate::text::{int_text, nat_text, push_dec, push_int};
use crate::wire::{
    from_i8, overwrite, put_slice, put_u16, put_u32, put_u64, u16_bytes, u32_bytes, u64_bytes,
    u8_of_i8, write_at, F32Bits,
};

pub mod kind;
pub mod link;

verus! {

/// Magic number of a telemetry frame.
pub const TELEMETRY_MAGIC: u32 = 0x5254_4D31;

/// Frame format version.
pub const TELEMETRY_VERSION: u8 = 1;

/// Errors from the frame encoders.
#[derive(Clone, Copy, Debug, PartialEq, Eq, Structural)]
pub enum EncodeError {
    /// The buffer ran out `need` bytes into the frame.
    TooSmall { need: usize, have: usize },
}

impl EncodeError {
    /// The message shown in the log.
    pub fn text(&self) -> (s: String)
        ensures
            s@ == "telemetry frame needs "@ + nat_text(self->need as nat) + " bytes, buffer has "@
                + nat_text(self->have as nat),
    {
        let mut s = "telemetry frame needs ".to_owned();
        match *self {
            EncodeError::TooSmall { need, have } => {
                push_dec(&mut s, need as u64);
                s.append(" bytes, buffer has ");
                push_dec(&mut s, have as u64);
            },
        }
        s
    }
}

/// The wire byte of a state.
pub open spec fn occupancy_code(s: OccupancyState) -> u8 {
    match s {
        OccupancyState::Unknown => 0,
        OccupancyState::Empty => 1,
        OccupancyState::PossiblePresence => 2,
        OccupancyState::StaticPresence => 3,
        OccupancyState::Movement => 4,
        OccupancyState::StrongMovement => 5,
        OccupancyState::ComplexMovement => 6,
    }
}

/// Occupancy state to wire byte.
pub fn occupancy_to_u8(s: OccupancyState) -> (v: u8)
    ensures
        v == occupancy_code(s),
{
    match s {
        OccupancyState::Unknown => 0,
        OccupancyState::Empty => 1,
        OccupancyState::PossiblePresence => 2,
        OccupancyState::StaticPresence => 3,
        OccupancyState::Movement => 4,
        OccupancyState::StrongMovement => 5,
        OccupancyState::ComplexMovement => 6,
    }
}

/// The state of a wire byte; bytes of no state give `Unknown`.
pub open spec fn occupancy_of(v: u8) -> OccupancyState {
    if v == 1 {
        OccupancyState::Empty
    } else if v == 2 {
        OccupancyState::PossiblePresence
    } else if v == 3 {
        OccupancyState::StaticPresence
    } else if v == 4 {
        OccupancyState::Movement
    } else if v == 5 {
        OccupancyState::StrongMovement
    } else if v == 6 {
        OccupancyState::ComplexMovement
    } else {
        OccupancyState::Unknown
    }
}

/// Wire byte to occupancy state.
pub fn occupancy_from_u8(v: u8) -> (s: OccupancyState)
    ensures
        s == occupancy_of(v),
{
    match v {
        1 => OccupancyState::Empty,
        2 => OccupancyState::PossiblePresence,
        3 => OccupancyState::StaticPresence,
        4 => OccupancyState::Movement,
        5 => OccupancyState::StrongMovement,
        6 => OccupancyState::ComplexMovement,
        _ => OccupancyState::Unknown,
    }
}

/// Every state is read back from its wire byte.
pub proof fn occupancy_round_trip(s: OccupancyState)
    ensures
        occupancy_of(occupancy_code(s)) == s,
{
}

/// The wire codes count the states from unknown over empty and presence to
/// ever stronger movement, and no other byte stands for a known state.
pub proof fn occupancy_codes_count_up(s: OccupancyState, t: OccupancyState, v: u8)
    ensures
        occupancy_code(OccupancyState::Unknown) == 0,
        occupancy_code(OccupancyState::Empty) == 1,
        occupancy_code(OccupancyState::PossiblePresence) == 2,
        occupancy_code(OccupancyState::StaticPresence) == 3,
        occupancy_code(OccupancyState::Movement) == 4,
        occupancy_code(OccupancyState::StrongMovement) == 5,
        occupancy_code(OccupancyState::ComplexMovement) == 6,
        s != t ==> occupancy_code(s) != occupancy_code(t),
        occupancy_of(v) != OccupancyState::Unknown <==> 1 <= v <= 6,
        1 <= v <= 6 ==> occupancy_code(occupancy_of(v)) == v,
{
}

/// Human-readable occupancy name.
pub fn occupancy_name(s: OccupancyState) -> (name: &'static str)
    ensures
        name@ == state_name(s),
{
    s.text()
}

/// Where the part of a frame before its field `k` ends.
pub open spec fn field_start(ends: Seq<usize>, k: int) -> int {
    if k == 0 {
        0
    } else {
        ends[k - 1] as int
    }
}

/// `ends` cuts a frame of `len` bytes into non-empty fields, but for the last,
/// which may be empty.
pub open spec fn cuts(ends: Seq<usize>, len: int) -> bool {
    &&& ends.len() > 0
    &&& ends.last() == len
    &&& forall|i: int, j: int| 0 <= i <= j < ends.len() ==> ends[i] <= ends[j]
}

/// The field `k` is the first that a buffer of `have` bytes cannot take.
pub open spec fn runs_out_at(ends: Seq<usize>, have: int, k: int) -> bool {
    0 <= k < ends.len() && field_start(ends, k) <= have < ends[k]
}

/// What encoding a frame into a buffer does: the whole frame is written when
/// it fits; otherwise the fields that fit are, and the error tells where the
/// first that does not would have ended.
pub open spec fn encoded(
    bytes: Seq<u8>,
    ends: Seq<usize>,
    before: Seq<u8>,
    after: Seq<u8>,
    r: Result<usize, EncodeError>,
) -> bool {
    match r {
        Ok(n) => {
            &&& n == bytes.len() <= before.len()
            &&& after == overwrite(before, 0, bytes)
        },
        Err(EncodeError::TooSmall { need, have }) => {
            &&& have == before.len() < bytes.len()
            &&& cut_short(bytes, ends, before, after, need)
        },
    }
}

/// The fields before the first that does not fit were written, and that one
/// would have ended at `need`.
pub open spec fn cut_short(
    bytes: Seq<u8>,
    ends: Seq<usize>,
    before: Seq<u8>,
    after: Seq<u8>,
    need: usize,
) -> bool {
    exists|k: int|
        {
            &&& #[trigger] runs_out_at(ends, before.len() as int, k)
            &&& need == ends[k]
            &&& after == overwrite(before, 0, bytes.subrange(0, field_start(ends, k)))
        }
}

/// A buffer runs out at one field only, so the error of a refused frame is
/// determined by the buffer's length.
pub proof fn runs_out_at_one_field(ends: Seq<usize>, have: int, j: int, k: int)
    requires
        cuts(ends, ends.last() as int),
        runs_out_at(ends, have, j),
        runs_out_at(ends, have, k),
    ensures
        j == k,
{
    if j < k {
        assert(ends[j] <= ends[k - 1]);
    } else if k < j {
        assert(ends[k] <= ends[j - 1]);
    }
}

/// Writes a frame field by field.
fn write_frame(buf: &mut [u8], bytes: &[u8], ends: &[usize]) -> (r: Result<usize, EncodeError>)
    requires
        cuts(ends@, bytes@.len() as int),
    ensures
        encoded(bytes@, ends@, old(buf)@, final(buf)@, r),
{
    let have: usize = buf.len();
    let ghost before = buf@;
    assert(before.len() == have);
    if bytes.len() <= have {
        write_at(buf, 0, bytes);
        return Ok(bytes.len());
    }
    let mut k: usize = 0;
    let mut start: usize = 0;
    while ends[k] <= have
        invariant
            k < ends@.len(),
            cuts(ends@, bytes@.len() as int),
            have < bytes@.len(),
            start == field_start(ends@, k as int),
            start <= have,
        decreases ends@.len() - k,
    {
        start = ends[k];
        k += 1;
    }
    let head = vstd::slice::slice_subrange(bytes, 0, start);
    write_at(buf, 0, head);
    assert(head@ == bytes@.subrange(0, field_start(ends@, k as int)));
    assert(buf@ == overwrite(before, 0, bytes@.subrange(0, field_start(ends@, k as int))));
    assert(runs_out_at(ends@, have as int, k as int));
    let need: usize = ends[k];
    assert(need == ends@[k as int]);
    assert(cut_short(bytes@, ends@, before, buf@, need));
    Err(EncodeError::TooSmall { need, have })
}

/// Single-shot live status, packed into 66 bytes.
///
/// Layout: `magic u32 | version u8 | kind u8 | occupancy u8 | confidence u8 |
/// tx_power_db i8 | rssi_rx1 i8 | rssi_rx2 i8 | csi_quality_rx1 u8 |
/// csi_quality_rx2 u8 | sat_rx1 u8 | sat_rx2 u8 | dyn_rx1 u8 | dyn_rx2 u8 |
/// packet_delivery_pct u8 | paired_frames_s u16 | seq u32 | t_us u64 |
/// motion_energy_rx1 | motion_energy_rx2 | motion_energy_fused |
/// spectral_entropy | dominant_freq_hz u16 | pca1 | pca2 | correlation |
/// differential`, where what has no type is a single-precision number.
#[derive(Clone, Copy, Debug, PartialEq, Eq, Structural)]
pub struct StatusFrame {
    pub seq: u32,
    pub t_us: u64,
    pub occupancy: OccupancyState,
    /// 0..=100.
    pub confidence: u8,
    /// dBm; 0 means not commissioned.
    pub tx_power_db: i8,
    pub rssi_rx1: i8,
    pub rssi_rx2: i8,
    pub csi_quality_rx1: u8,
    pub csi_quality_rx2: u8,
    pub sat_score_rx1: u8,
    pub sat_score_rx2: u8,
    pub dyn_range_rx1: u8,
    pub dyn_range_rx2: u8,
    /// 0..=100.
    pub packet_delivery_pct: u8,
    pub paired_frames_s: u16,
    pub motion_energy_rx1: F32Bits,
    pub motion_energy_rx2: F32Bits,
    pub motion_energy_fused: F32Bits,
    pub spectral_entropy: F32Bits,
    pub dominant_freq_hz: u16,
    pub pca1: F32Bits,
    pub pca2: F32Bits,
    pub correlation: F32Bits,
    pub differential: F32Bits,
}

/// A status with nothing in it.
pub open spec fn blank_status() -> StatusFrame {
    StatusFrame {
        seq: 0,
        t_us: 0,
        occupancy: OccupancyState::Unknown,
        confidence: 0,
        tx_power_db: 0,
        rssi_rx1: 0,
        rssi_rx2: 0,
        csi_quality_rx1: 0,
        csi_quality_rx2: 0,
        sat_score_rx1: 0,
        sat_score_rx2: 0,
        dyn_range_rx1: 0,
        dyn_range_rx2: 0,
        packet_delivery_pct: 0,
        paired_frames_s: 0,
        motion_energy_rx1: 0,
        motion_energy_rx2: 0,
        motion_energy_fused: 0,
        spectral_entropy: 0,
        dominant_freq_hz: 0,
        pca1: 0,
        pca2: 0,
        correlation: 0,
        differential: 0,
    }
}

impl Default for StatusFrame {
    fn default() -> (f: Self)
        ensures
            f == blank_status(),
    {
        StatusFrame {
            seq: 0,
            t_us: 0,
            occupancy: OccupancyState::Unknown,
            confidence: 0,
            tx_power_db: 0,
            rssi_rx1: 0,
            rssi_rx2: 0,
            csi_quality_rx1: 0,
            csi_quality_rx2: 0,
            sat_score_rx1: 0,
            sat_score_rx2: 0,
            dyn_range_rx1: 0,
            dyn_range_rx2: 0,
            packet_delivery_pct: 0,
            paired_frames_s: 0,
            motion_energy_rx1: 0,
            motion_energy_rx2: 0,
            motion_energy_fused: 0,
            spectral_entropy: 0,
            dominant_freq_hz: 0,
            pca1: 0,
            pca2: 0,
            correlation: 0,
            differential: 0,
        }
    }
}

/// The common head of every frame.
pub open spec fn head_bytes(kind: u8) -> Seq<u8> {
    u32_bytes(TELEMETRY_MAGIC) + seq![TELEMETRY_VERSION, kind]
}

/// The encoded status.
pub open spec fn status_bytes(f: StatusFrame) -> Seq<u8> {
    head_bytes(kind::STATUS) + seq![
        occupancy_code(f.occupancy),
        f.confidence,
        u8_of_i8(f.tx_power_db),
        u8_of_i8(f.rssi_rx1),
        u8_of_i8(f.rssi_rx2),
        f.csi_quality_rx1,
        f.csi_quality_rx2,
        f.sat_score_rx1,
        f.sat_score_rx2,
        f.dyn_range_rx1,
        f.dyn_range_rx2,
        f.packet_delivery_pct,
    ] + u16_bytes(f.paired_frames_s) + u32_bytes(f.seq) + u64_bytes(f.t_us) + u32_bytes(f.motion_energy_rx1) + u32_bytes(f.motion_energy_rx2) + u32_bytes(f.motion_energy_fused) + u32_bytes(f.spectral_entropy) + u16_bytes(f.dominant_freq_hz) + u32_bytes(f.pca1) + u32_bytes(f.pca2) + u32_bytes(f.correlation) + u32_bytes(f.differential)
}

/// Where the fields of a status end.
pub open spec fn status_ends() -> Seq<usize> {
    seq![4usize, 5, 6, 7, 8, 9, 10, 11, 12, 13, 14, 15, 16, 17, 18, 20, 24, 32, 36, 40, 44, 48, 50, 54, 58, 62, 66]
}

/// Where a reader finds the fields of a status.
#[verifier::spinoff_prover]
#[verifier::rlimit(60)]
pub proof fn status_layout(f: StatusFrame)
    ensures
        status_bytes(f).len() == 66,
        crate::wire::u32_at(status_bytes(f), 0) == TELEMETRY_MAGIC,
        status_bytes(f)[4] == TELEMETRY_VERSION,
        status_bytes(f)[5] == kind::STATUS,
        occupancy_of(status_bytes(f)[6]) == f.occupancy,
        status_bytes(f)[7] == f.confidence,
        crate::wire::i8_of_u8(status_bytes(f)[8]) == f.tx_power_db,
        crate::wire::i8_of_u8(status_bytes(f)[9]) == f.rssi_rx1,
        crate::wire::i8_of_u8(status_bytes(f)[10]) == f.rssi_rx2,
        status_bytes(f)[11] == f.csi_quality_rx1,
        status_bytes(f)[12] == f.csi_quality_rx2,
        status_bytes(f)[13] == f.sat_score_rx1,
        status_bytes(f)[14] == f.sat_score_rx2,
        status_bytes(f)[15] == f.dyn_range_rx1,
        status_bytes(f)[16] == f.dyn_range_rx2,
        status_bytes(f)[17] == f.packet_delivery_pct,
        crate::wire::u16_at(status_bytes(f), 18) == f.paired_frames_s,
        crate::wire::u32_at(status_bytes(f), 20) == f.seq,
        crate::wire::u64_at(status_bytes(f), 24) == f.t_us,
        crate::wire::u32_at(status_bytes(f), 32) == f.motion_energy_rx1,
        crate::wire::u32_at(status_bytes(f), 36) == f.motion_energy_rx2,
        crate::wire::u32_at(status_bytes(f), 40) == f.motion_energy_fused,
        crate::wire::u32_at(status_bytes(f), 44) == f.spectral_entropy,
        crate::wire::u16_at(status_bytes(f), 48) == f.dominant_freq_hz,
        crate::wire::u32_at(status_bytes(f), 50) == f.pca1,
        crate::wire::u32_at(status_bytes(f), 54) == f.pca2,
        crate::wire::u32_at(status_bytes(f), 58) == f.correlation,
        crate::wire::u32_at(status_bytes(f), 62) == f.differential,
{
    let b = status_bytes(f);
    assert(b.len() == 66);
    assert(b.subrange(0, 4) =~= u32_bytes(TELEMETRY_MAGIC));
    crate::wire::u32_round_trip(b, 0, TELEMETRY_MAGIC);
    occupancy_round_trip(f.occupancy);
    assert(b[6] == occupancy_code(f.occupancy));
    assert(b.subrange(18, 20) =~= u16_bytes(f.paired_frames_s));
    crate::wire::u16_round_trip(b, 18, f.paired_frames_s);
    assert(b.subrange(20, 24) =~= u32_bytes(f.seq));
    crate::wire::u32_round_trip(b, 20, f.seq);
    assert(b.subrange(24, 32) =~= u64_bytes(f.t_us));
    crate::wire::u64_round_trip(b, 24, f.t_us);
    assert(b.subrange(32, 36) =~= u32_bytes(f.motion_energy_rx1));
    crate::wire::u32_round_trip(b, 32, f.motion_energy_rx1);
    assert(b.subrange(36, 40) =~= u32_bytes(f.motion_energy_rx2));
    crate::wire::u32_round_trip(b, 36, f.motion_energy_rx2);
    assert(b.subrange(40, 44) =~= u32_bytes(f.motion_energy_fused));
    crate::wire::u32_round_trip(b, 40, f.motion_energy_fused);
    assert(b.subrange(44, 48) =~= u32_bytes(f.spectral_entropy));
    crate::wire::u32_round_trip(b, 44, f.spectral_entropy);
    assert(b.subrange(48, 50) =~= u16_bytes(f.dominant_freq_hz));
    crate::wire::u16_round_trip(b, 48, f.dominant_freq_hz);
    assert(b.subrange(50, 54) =~= u32_bytes(f.pca1));
    crate::wire::u32_round_trip(b, 50, f.pca1);
    assert(b.subrange(54, 58) =~= u32_bytes(f.pca2));
    crate::wire::u32_round_trip(b, 54, f.pca2);
    assert(b.subrange(58, 62) =~= u32_bytes(f.correlation));
    crate::wire::u32_round_trip(b, 58, f.correlation);
    assert(b.subrange(62, 66) =~= u32_bytes(f.differential));
    crate::wire::u32_round_trip(b, 62, f.differential);
}

impl StatusFrame {
    /// Encoded size.
    pub const LEN: usize = 66;

    /// Encodes into `buf`, giving the number of bytes written.
    pub fn encode(&self, buf: &mut [u8]) -> (r: Result<usize, EncodeError>)
        ensures
            status_bytes(*self).len() == 66,
            encoded(status_bytes(*self), status_ends(), old(buf)@, final(buf)@, r),
    {
        let mut v: Vec<u8> = Vec::new();
        put_u32(&mut v, TELEMETRY_MAGIC);
        v.push(TELEMETRY_VERSION);
        v.push(kind::STATUS);
        v.push(occupancy_to_u8(self.occupancy));
        v.push(self.confidence);
        v.push(from_i8(self.tx_power_db));
        v.push(from_i8(self.rssi_rx1));
        v.push(from_i8(self.rssi_rx2));
        v.push(self.csi_quality_rx1);
        v.push(self.csi_quality_rx2);
        v.push(self.sat_score_rx1);
        v.push(self.sat_score_rx2);
        v.push(self.dyn_range_rx1);
        v.push(self.dyn_range_rx2);
        v.push(self.packet_delivery_pct);
        assert(v@ =~= head_bytes(kind::STATUS) + seq![
            occupancy_code(self.occupancy),
            self.confidence,
            u8_of_i8(self.tx_power_db),
            u8_of_i8(self.rssi_rx1),
            u8_of_i8(self.rssi_rx2),
            self.csi_quality_rx1,
            self.csi_quality_rx2,
            self.sat_score_rx1,
            self.sat_score_rx2,
            self.dyn_range_rx1,
            self.dyn_range_rx2,
            self.packet_delivery_pct,
        ]);
        put_u16(&mut v, self.paired_frames_s);
        put_u32(&mut v, self.seq);
        put_u64(&mut v, self.t_us);
        put_u32(&mut v, self.motion_energy_rx1);
        put_u32(&mut v, self.motion_energy_rx2);
        put_u32(&mut v, self.motion_energy_fused);
        put_u32(&mut v, self.spectral_entropy);
        put_u16(&mut v, self.dominant_freq_hz);
        put_u32(&mut v, self.pca1);
        put_u32(&mut v, self.pca2);
        put_u32(&mut v, self.correlation);
        put_u32(&mut v, self.differential);
        assert(v@ == status_bytes(*self));
        let ends: [usize; 27] = [4, 5, 6, 7, 8, 9, 10, 11, 12, 13, 14, 15, 16, 17, 18, 20, 24, 32, 36, 40, 44, 48, 50, 54, 58, 62, 66];
        assert(ends@ =~= status_ends());
        write_frame(buf, v.as_slice(), &ends)
    }
}

/// Per-link CSI waterfall: a time by subcarrier matrix of normalized
/// amplitudes.
///
/// Layout: `magic u32 | version u8 | kind u8 | link u8 | n_sub u8 | bins u16 |
/// scale u8 | data`.
pub struct WaterfallFrame<'a> {
    /// `link::RX1` or `link::RX2`.
    pub link: u8,
    /// Values per time bin.
    pub n_sub: u8,
    /// Number of time bins.
    pub bins: u16,
    /// Right-shift applied before packing.
    pub scale: u8,
    /// `n_sub * bins` values, time-major.
    pub data: &'a [u8],
}

impl<'a> WaterfallFrame<'a> {
    /// Encoded size: an 11-byte header and the matrix.
    pub fn len(&self) -> (n: usize)
        ensures
            n == 11 + self.n_sub * self.bins,
    {
        assert(self.n_sub * self.bins <= 255 * 65535) by (nonlinear_arith)
            requires
                self.n_sub <= 255,
                self.bins <= 65535,
        ;
        11 + self.n_sub as usize * self.bins as usize
    }

    /// Never: a frame has at least its header.
    pub fn is_empty(&self) -> (e: bool)
        ensures
            !e,
    {
        assert(self.n_sub * self.bins >= 0) by (nonlinear_arith);
        self.len() == 0
    }

    /// Encodes into `buf`, giving the number of bytes written.
    pub fn encode(&self, buf: &mut [u8]) -> (r: Result<usize, EncodeError>)
        requires
            self.data@.len() <= usize::MAX - 11,
        ensures
            encoded(
                matrix_bytes(
                    kind::WATERFALL,
                    self.link,
                    self.n_sub,
                    self.bins,
                    self.scale,
                    self.data@,
                ),
                matrix_ends(self.data@.len() as int),
                old(buf)@,
                final(buf)@,
                r,
            ),
    {
        encode_matrix(
            buf,
            kind::WATERFALL,
            self.link,
            self.n_sub,
            self.bins,
            self.scale,
            self.data,
        )
    }
}

/// An encoded matrix frame.
pub open spec fn matrix_bytes(
    kind: u8,
    link: u8,
    width: u8,
    bins: u16,
    scale: u8,
    data: Seq<u8>,
) -> Seq<u8> {
    head_bytes(kind) + seq![link, width] + u16_bytes(bins) + seq![scale] + data
}

/// Where the fields of a matrix frame with `n` values end.
pub open spec fn matrix_ends(n: int) -> Seq<usize> {
    seq![4usize, 5, 6, 7, 8, 10, 11, (11 + n) as usize]
}

/// A matrix that has its announced size gives a frame of the announced
/// length, with the header fields and the values at fixed places.
pub proof fn matrix_layout(kind: u8, link: u8, width: u8, bins: u16, scale: u8, data: Seq<u8>)
    requires
        data.len() == width * bins,
    ensures
        matrix_bytes(kind, link, width, bins, scale, data).len() == 11 + width * bins,
        matrix_bytes(kind, link, width, bins, scale, data)[5] == kind,
        matrix_bytes(kind, link, width, bins, scale, data)[6] == link,
        matrix_bytes(kind, link, width, bins, scale, data)[7] == width,
        crate::wire::u16_at(matrix_bytes(kind, link, width, bins, scale, data), 8) == bins,
        matrix_bytes(kind, link, width, bins, scale, data)[10] == scale,
        matrix_bytes(kind, link, width, bins, scale, data).skip(11) == data,
{
    let b = matrix_bytes(kind, link, width, bins, scale, data);
    assert(b.subrange(8, 10) =~= u16_bytes(bins));
    crate::wire::u16_round_trip(b, 8, bins);
    assert(b.skip(11) =~= data);
}

fn encode_matrix(
    buf: &mut [u8],
    kind: u8,
    link: u8,
    width: u8,
    bins: u16,
    scale: u8,
    data: &[u8],
) -> (r: Result<usize, EncodeError>)
    requires
        data@.len() <= usize::MAX - 11,
    ensures
        encoded(
            matrix_bytes(kind, link, width, bins, scale, data@),
            matrix_ends(data@.len() as int),
            old(buf)@,
            final(buf)@,
            r,
        ),
{
    let mut v: Vec<u8> = Vec::new();
    put_u32(&mut v, TELEMETRY_MAGIC);
    v.push(TELEMETRY_VERSION);
    v.push(kind);
    v.push(link);
    v.push(width);
    put_u16(&mut v, bins);
    v.push(scale);
    put_slice(&mut v, data);
    assert(v@ =~= matrix_bytes(kind, link, width, bins, scale, data@));
    let ends: [usize; 8] = [4, 5, 6, 7, 8, 10, 11, 11 + data.len()];
    assert(ends@ =~= matrix_ends(data@.len() as int));
    write_frame(buf, v.as_slice(), &ends)
}

/// Motion spectrogram: a time by frequency matrix of spectral magnitudes.
///
/// Layout: `magic u32 | version u8 | kind u8 | link u8 | n_freq u8 | bins u16 |
/// scale u8 | data`.
pub struct SpectrogramFrame<'a> {
    /// `link::RX1`, `link::RX2` or `link::FUSED`.
    pub link: u8,
    /// Values per time bin.
    pub n_freq: u8,
    /// Number of time bins.
    pub bins: u16,
    /// Right-shift applied before packing.
    pub scale: u8,
    /// `n_freq * bins` values, time-major.
    pub data: &'a [u8],
}

impl<'a> SpectrogramFrame<'a> {
    /// Encoded size: an 11-byte header and the matrix.
    pub fn len(&self) -> (n: usize)
        ensures
            n == 11 + self.n_freq * self.bins,
    {
        assert(self.n_freq * self.bins <= 255 * 65535) by (nonlinear_arith)
            requires
                self.n_freq <= 255,
                self.bins <= 65535,
        ;
        11 + self.n_freq as usize * self.bins as usize
    }

    /// Never: a frame has at least its header.
    pub fn is_empty(&self) -> (e: bool)
        ensures
            !e,
    {
        assert(self.n_freq * self.bins >= 0) by (nonlinear_arith);
        self.len() == 0
    }

    /// Encodes into `buf`, giving the number of bytes written.
    pub fn encode(&self, buf: &mut [u8]) -> (r: Result<usize, EncodeError>)
        requires
            self.data@.len() <= usize::MAX - 11,
        ensures
            encoded(
                matrix_bytes(
                    kind::SPECTROGRAM,
                    self.link,
                    self.n_freq,
                    self.bins,
                    self.scale,
                    self.data@,
                ),
                matrix_ends(self.data@.len() as int),
                old(buf)@,
                final(buf)@,
                r,
            ),
    {
        encode_matrix(
            buf,
            kind::SPECTROGRAM,
            self.link,
            self.n_freq,
            self.bins,
            self.scale,
            self.data,
        )
    }
}

/// The live status kept for the JSON endpoint and the status frame.
#[derive(Clone, Copy, Debug, PartialEq, Eq, Structural)]
pub struct StatusSnapshot {
    pub frame: StatusFrame,
    /// 2.4 GHz channel of the access point.
    pub channel: u8,
    /// Measurement frames per second.
    pub tx_rate_hz: u16,
    /// 0 is inactive, 1..=5 a calibration stage.
    pub cal_stage: u8,
    pub cal_active: bool,
    /// True once the receivers have reported.
    pub radar_active: bool,
}

impl Default for StatusSnapshot {
    fn default() -> (s: Self)
        ensures
            s == (StatusSnapshot {
                frame: blank_status(),
                channel: 6,
                tx_rate_hz: 200,
                cal_stage: 0,
                cal_active: false,
                radar_active: false,
            }),
    {
        StatusSnapshot {
            frame: StatusFrame::default(),
            channel: 6,
            tx_rate_hz: 200,
            cal_stage: 0,
            cal_active: false,
            radar_active: false,
        }
    }
}

/// The decimal renderings of a status frame's real-valued fields: two digits
/// after the point for energies and components, three for the others.
#[derive(Clone, Debug)]
pub struct StatusTexts {
    pub motion_energy_rx1: String,
    pub motion_energy_rx2: String,
    pub motion_energy_fused: String,
    pub spectral_entropy: String,
    pub pca1: String,
    pub pca2: String,
    pub correlation: String,
    pub differential: String,
}

/// A flag as 1 or 0.
pub open spec fn flag_text(b: bool) -> Seq<char> {
    nat_text(if b {
        1
    } else {
        0
    })
}

fn push_flag(out: &mut String, b: bool)
    ensures
        final(out)@ == old(out)@ + flag_text(b),
{
    if b {
        push_dec(out, 1);
    } else {
        push_dec(out, 0);
    }
}

/// `before` and the system part of the JSON object.
pub open spec fn json_system(before: Seq<char>, s: StatusSnapshot) -> Seq<char> {
    let f = s.frame;
    before + "{\"radar_active\":"@ + flag_text(s.radar_active) + ",\"channel\":"@ + nat_text(s.channel as nat) + ",\"tx_rate_hz\":"@ + nat_text(s.tx_rate_hz as nat) + ",\"cal_stage\":"@ + nat_text(s.cal_stage as nat) + ",\"cal_active\":"@ + flag_text(s.cal_active) + ",\"occupancy\":\""@ + state_name(f.occupancy) + "\",\"occupancy_code\":"@ + nat_text(occupancy_code(f.occupancy) as nat)
}

/// `before` and the per-link part of the JSON object.
pub open spec fn json_links(before: Seq<char>, f: StatusFrame) -> Seq<char> {
    before + ",\"confidence\":"@ + nat_text(f.confidence as nat) + ",\"tx_power_db\":"@ + int_text(f.tx_power_db as int) + ",\"rssi_rx1\":"@ + int_text(f.rssi_rx1 as int) + ",\"rssi_rx2\":"@ + int_text(f.rssi_rx2 as int) + ",\"csi_quality_rx1\":"@ + nat_text(f.csi_quality_rx1 as nat) + ",\"csi_quality_rx2\":"@ + nat_text(f.csi_quality_rx2 as nat) + ",\"sat_score_rx1\":"@ + nat_text(f.sat_score_rx1 as nat) + ",\"sat_score_rx2\":"@ + nat_text(f.sat_score_rx2 as nat) + ",\"dyn_range_rx1\":"@ + nat_text(f.dyn_range_rx1 as nat) + ",\"dyn_range_rx2\":"@ + nat_text(f.dyn_range_rx2 as nat) + ",\"packet_delivery_pct\":"@ + nat_text(f.packet_delivery_pct as nat)
}

/// `before` and the motion part of the JSON object.
pub open spec fn json_motion(before: Seq<char>, f: StatusFrame, t: StatusTexts) -> Seq<char> {
    before + ",\"paired_frames_s\":"@ + nat_text(f.paired_frames_s as nat) + ",\"seq\":"@ + nat_text(f.seq as nat) + ",\"t_us\":"@ + nat_text(f.t_us as nat) + ",\"motion_energy_rx1\":"@ + t.motion_energy_rx1@ + ",\"motion_energy_rx2\":"@ + t.motion_energy_rx2@ + ",\"motion_energy_fused\":"@ + t.motion_energy_fused@ + ",\"spectral_entropy\":"@ + t.spectral_entropy@ + ",\"dominant_freq_hz\":"@ + nat_text(f.dominant_freq_hz as nat) + ",\"pca1\":"@ + t.pca1@ + ",\"pca2\":"@ + t.pca2@ + ",\"correlation\":"@ + t.correlation@ + ",\"differential\":"@ + t.differential@ + "}"@
}

/// The JSON object of a snapshot.
pub open spec fn snapshot_json(s: StatusSnapshot, t: StatusTexts) -> Seq<char> {
    json_motion(json_links(json_system(""@, s), s.frame), s.frame, t)
}

/// `s` starts with `p`.
pub open spec fn starts(s: Seq<char>, p: Seq<char>) -> bool {
    p.len() <= s.len() && s.subrange(0, p.len() as int) == p
}

/// Somewhere in `s` stands `key`, and right behind it `value`.
pub open spec fn entry(s: Seq<char>, key: Seq<char>, value: Seq<char>) -> bool {
    exists|front: Seq<char>| #[trigger]
        starts(s, front + key + value) && stops_at(s, (front + key + value).len() as int)
}

/// A value ends at `i`: a comma, a quote or the closing brace follows.
pub open spec fn stops_at(s: Seq<char>, i: int) -> bool {
    i < s.len() && (s[i] == ',' || s[i] == '"' || s[i] == '}')
}

proof fn next_char(s: Seq<char>, p: Seq<char>, x: Seq<char>)
    requires
        starts(s, p + x),
        x.len() > 0,
    ensures
        p.len() < s.len(),
        s[p.len() as int] == x[0],
{
    assert(s[p.len() as int] == s.subrange(0, (p + x).len() as int)[p.len() as int]);
}

proof fn starts_with_itself(s: Seq<char>)
    ensures
        starts(s, s),
{
    assert(s.subrange(0, s.len() as int) =~= s);
}

proof fn shorter_start(s: Seq<char>, p: Seq<char>, x: Seq<char>)
    requires
        starts(s, p + x),
    ensures
        starts(s, p),
{
    assert(s.subrange(0, p.len() as int) =~= s.subrange(0, (p + x).len() as int).subrange(
        0,
        p.len() as int,
    ));
    assert((p + x).subrange(0, p.len() as int) =~= p);
}

proof fn entry_of_a_start(s: Seq<char>, p: Seq<char>, key: Seq<char>, value: Seq<char>)
    requires
        starts(s, p),
        entry(p, key, value),
    ensures
        entry(s, key, value),
{
    let front = choose|front: Seq<char>| #[trigger]
        starts(p, front + key + value) && stops_at(p, (front + key + value).len() as int);
    let e = front + key + value;
    assert(s.subrange(0, e.len() as int) =~= s.subrange(0, p.len() as int).subrange(
        0,
        e.len() as int,
    ));
    assert(starts(s, front + key + value));
    assert(s[e.len() as int] == s.subrange(0, p.len() as int)[e.len() as int]);
}

/// Every key of the system part is followed by its own value.
proof fn json_system_entries(before: Seq<char>, s: StatusSnapshot)
    ensures
        starts(json_system(before, s), before),
        entry(json_system(before, s), "{\"radar_active\":"@, flag_text(s.radar_active)),
        entry(json_system(before, s), ",\"channel\":"@, nat_text(s.channel as nat)),
        entry(json_system(before, s), ",\"tx_rate_hz\":"@, nat_text(s.tx_rate_hz as nat)),
        entry(json_system(before, s), ",\"cal_stage\":"@, nat_text(s.cal_stage as nat)),
        entry(json_system(before, s), ",\"cal_active\":"@, flag_text(s.cal_active)),
        entry(json_system(before, s), ",\"occupancy\":\""@, state_name(s.frame.occupancy)),
        starts(json_system(before, s), before + "{\"radar_active\":"@),
        exists|front: Seq<char>| json_system(before, s) == #[trigger] (front + "\",\"occupancy_code\":"@ + nat_text(occupancy_code(s.frame.occupancy) as nat)),
{
    let p0 = before;
    let p1 = p0 + "{\"radar_active\":"@;
    let p2 = p1 + flag_text(s.radar_active);
    let p3 = p2 + ",\"channel\":"@;
    let p4 = p3 + nat_text(s.channel as nat);
    let p5 = p4 + ",\"tx_rate_hz\":"@;
    let p6 = p5 + nat_text(s.tx_rate_hz as nat);
    let p7 = p6 + ",\"cal_stage\":"@;
    let p8 = p7 + nat_text(s.cal_stage as nat);
    let p9 = p8 + ",\"cal_active\":"@;
    let p10 = p9 + flag_text(s.cal_active);
    let p11 = p10 + ",\"occupancy\":\""@;
    let p12 = p11 + state_name(s.frame.occupancy);
    let p13 = p12 + "\",\"occupancy_code\":"@;
    let p14 = p13 + nat_text(occupancy_code(s.frame.occupancy) as nat);
    assert(p14 == json_system(before, s));
    starts_with_itself(p14);
    shorter_start(p14, p13, nat_text(occupancy_code(s.frame.occupancy) as nat));
    shorter_start(p14, p12, "\",\"occupancy_code\":"@);
    shorter_start(p14, p11, state_name(s.frame.occupancy));
    shorter_start(p14, p10, ",\"occupancy\":\""@);
    shorter_start(p14, p9, flag_text(s.cal_active));
    shorter_start(p14, p8, ",\"cal_active\":"@);
    shorter_start(p14, p7, nat_text(s.cal_stage as nat));
    shorter_start(p14, p6, ",\"cal_stage\":"@);
    shorter_start(p14, p5, nat_text(s.tx_rate_hz as nat));
    shorter_start(p14, p4, ",\"tx_rate_hz\":"@);
    shorter_start(p14, p3, nat_text(s.channel as nat));
    shorter_start(p14, p2, ",\"channel\":"@);
    shorter_start(p14, p1, flag_text(s.radar_active));
    shorter_start(p14, p0, "{\"radar_active\":"@);
    reveal_strlit(",\"channel\":");
    reveal_strlit(",\"tx_rate_hz\":");
    reveal_strlit(",\"cal_stage\":");
    reveal_strlit(",\"cal_active\":");
    reveal_strlit(",\"occupancy\":\"");
    reveal_strlit("\",\"occupancy_code\":");
    next_char(p14, p2, ",\"channel\":"@);
    assert(starts(p14, p0 + "{\"radar_active\":"@ + flag_text(s.radar_active)));
    next_char(p14, p4, ",\"tx_rate_hz\":"@);
    assert(starts(p14, p2 + ",\"channel\":"@ + nat_text(s.channel as nat)));
    next_char(p14, p6, ",\"cal_stage\":"@);
    assert(starts(p14, p4 + ",\"tx_rate_hz\":"@ + nat_text(s.tx_rate_hz as nat)));
    next_char(p14, p8, ",\"cal_active\":"@);
    assert(starts(p14, p6 + ",\"cal_stage\":"@ + nat_text(s.cal_stage as nat)));
    next_char(p14, p10, ",\"occupancy\":\""@);
    assert(starts(p14, p8 + ",\"cal_active\":"@ + flag_text(s.cal_active)));
    next_char(p14, p12, "\",\"occupancy_code\":"@);
    assert(starts(p14, p10 + ",\"occupancy\":\""@ + state_name(s.frame.occupancy)));
    assert(p14 == p12 + "\",\"occupancy_code\":"@ + nat_text(occupancy_code(s.frame.occupancy) as nat));
}

/// Every key of the per-link part is followed by its own value.
proof fn json_links_entries(before: Seq<char>, f: StatusFrame)
    ensures
        starts(json_links(before, f), before),
        entry(json_links(before, f), ",\"confidence\":"@, nat_text(f.confidence as nat)),
        entry(json_links(before, f), ",\"tx_power_db\":"@, int_text(f.tx_power_db as int)),
        entry(json_links(before, f), ",\"rssi_rx1\":"@, int_text(f.rssi_rx1 as int)),
        entry(json_links(before, f), ",\"rssi_rx2\":"@, int_text(f.rssi_rx2 as int)),
        entry(json_links(before, f), ",\"csi_quality_rx1\":"@, nat_text(f.csi_quality_rx1 as nat)),
        entry(json_links(before, f), ",\"csi_quality_rx2\":"@, nat_text(f.csi_quality_rx2 as nat)),
        entry(json_links(before, f), ",\"sat_score_rx1\":"@, nat_text(f.sat_score_rx1 as nat)),
        entry(json_links(before, f), ",\"sat_score_rx2\":"@, nat_text(f.sat_score_rx2 as nat)),
        entry(json_links(before, f), ",\"dyn_range_rx1\":"@, nat_text(f.dyn_range_rx1 as nat)),
        entry(json_links(before, f), ",\"dyn_range_rx2\":"@, nat_text(f.dyn_range_rx2 as nat)),
        starts(json_links(before, f), before + ",\"confidence\":"@),
        exists|front: Seq<char>| json_links(before, f) == #[trigger] (front + ",\"packet_delivery_pct\":"@ + nat_text(f.packet_delivery_pct as nat)),
{
    let p0 = before;
    let p1 = p0 + ",\"confidence\":"@;
    let p2 = p1 + nat_text(f.confidence as nat);
    let p3 = p2 + ",\"tx_power_db\":"@;
    let p4 = p3 + int_text(f.tx_power_db as int);
    let p5 = p4 + ",\"rssi_rx1\":"@;
    let p6 = p5 + int_text(f.rssi_rx1 as int);
    let p7 = p6 + ",\"rssi_rx2\":"@;
    let p8 = p7 + int_text(f.rssi_rx2 as int);
    let p9 = p8 + ",\"csi_quality_rx1\":"@;
    let p10 = p9 + nat_text(f.csi_quality_rx1 as nat);
    let p11 = p10 + ",\"csi_quality_rx2\":"@;
    let p12 = p11 + nat_text(f.csi_quality_rx2 as nat);
    let p13 = p12 + ",\"sat_score_rx1\":"@;
    let p14 = p13 + nat_text(f.sat_score_rx1 as nat);
    let p15 = p14 + ",\"sat_score_rx2\":"@;
    let p16 = p15 + nat_text(f.sat_score_rx2 as nat);
    let p17 = p16 + ",\"dyn_range_rx1\":"@;
    let p18 = p17 + nat_text(f.dyn_range_rx1 as nat);
    let p19 = p18 + ",\"dyn_range_rx2\":"@;
    let p20 = p19 + nat_text(f.dyn_range_rx2 as nat);
    let p21 = p20 + ",\"packet_delivery_pct\":"@;
    let p22 = p21 + nat_text(f.packet_delivery_pct as nat);
    assert(p22 == json_links(before, f));
    starts_with_itself(p22);
    shorter_start(p22, p21, nat_text(f.packet_delivery_pct as nat));
    shorter_start(p22, p20, ",\"packet_delivery_pct\":"@);
    shorter_start(p22, p19, nat_text(f.dyn_range_rx2 as nat));
    shorter_start(p22, p18, ",\"dyn_range_rx2\":"@);
    shorter_start(p22, p17, nat_text(f.dyn_range_rx1 as nat));
    shorter_start(p22, p16, ",\"dyn_range_rx1\":"@);
    shorter_start(p22, p15, nat_text(f.sat_score_rx2 as nat));
    shorter_start(p22, p14, ",\"sat_score_rx2\":"@);
    shorter_start(p22, p13, nat_text(f.sat_score_rx1 as nat));
    shorter_start(p22, p12, ",\"sat_score_rx1\":"@);
    shorter_start(p22, p11, nat_text(f.csi_quality_rx2 as nat));
    shorter_start(p22, p10, ",\"csi_quality_rx2\":"@);
    shorter_start(p22, p9, nat_text(f.csi_quality_rx1 as nat));
    shorter_start(p22, p8, ",\"csi_quality_rx1\":"@);
    shorter_start(p22, p7, int_text(f.rssi_rx2 as int));
    shorter_start(p22, p6, ",\"rssi_rx2\":"@);
    shorter_start(p22, p5, int_text(f.rssi_rx1 as int));
    shorter_start(p22, p4, ",\"rssi_rx1\":"@);
    shorter_start(p22, p3, int_text(f.tx_power_db as int));
    shorter_start(p22, p2, ",\"tx_power_db\":"@);
    shorter_start(p22, p1, nat_text(f.confidence as nat));
    shorter_start(p22, p0, ",\"confidence\":"@);
    reveal_strlit(",\"tx_power_db\":");
    reveal_strlit(",\"rssi_rx1\":");
    reveal_strlit(",\"rssi_rx2\":");
    reveal_strlit(",\"csi_quality_rx1\":");
    reveal_strlit(",\"csi_quality_rx2\":");
    reveal_strlit(",\"sat_score_rx1\":");
    reveal_strlit(",\"sat_score_rx2\":");
    reveal_strlit(",\"dyn_range_rx1\":");
    reveal_strlit(",\"dyn_range_rx2\":");
    reveal_strlit(",\"packet_delivery_pct\":");
    next_char(p22, p2, ",\"tx_power_db\":"@);
    assert(starts(p22, p0 + ",\"confidence\":"@ + nat_text(f.confidence as nat)));
    next_char(p22, p4, ",\"rssi_rx1\":"@);
    assert(starts(p22, p2 + ",\"tx_power_db\":"@ + int_text(f.tx_power_db as int)));
    next_char(p22, p6, ",\"rssi_rx2\":"@);
    assert(starts(p22, p4 + ",\"rssi_rx1\":"@ + int_text(f.rssi_rx1 as int)));
    next_char(p22, p8, ",\"csi_quality_rx1\":"@);
    assert(starts(p22, p6 + ",\"rssi_rx2\":"@ + int_text(f.rssi_rx2 as int)));
    next_char(p22, p10, ",\"csi_quality_rx2\":"@);
    assert(starts(p22, p8 + ",\"csi_quality_rx1\":"@ + nat_text(f.csi_quality_rx1 as nat)));
    next_char(p22, p12, ",\"sat_score_rx1\":"@);
    assert(starts(p22, p10 + ",\"csi_quality_rx2\":"@ + nat_text(f.csi_quality_rx2 as nat)));
    next_char(p22, p14, ",\"sat_score_rx2\":"@);
    assert(starts(p22, p12 + ",\"sat_score_rx1\":"@ + nat_text(f.sat_score_rx1 as nat)));
    next_char(p22, p16, ",\"dyn_range_rx1\":"@);
    assert(starts(p22, p14 + ",\"sat_score_rx2\":"@ + nat_text(f.sat_score_rx2 as nat)));
    next_char(p22, p18, ",\"dyn_range_rx2\":"@);
    assert(starts(p22, p16 + ",\"dyn_range_rx1\":"@ + nat_text(f.dyn_range_rx1 as nat)));
    next_char(p22, p20, ",\"packet_delivery_pct\":"@);
    assert(starts(p22, p18 + ",\"dyn_range_rx2\":"@ + nat_text(f.dyn_range_rx2 as nat)));
    assert(p22 == p20 + ",\"packet_delivery_pct\":"@ + nat_text(f.packet_delivery_pct as nat));
}

/// Every key of the motion part is followed by its own value.
proof fn json_motion_entries(before: Seq<char>, f: StatusFrame, t: StatusTexts)
    ensures
        starts(json_motion(before, f, t), before),
        entry(json_motion(before, f, t), ",\"paired_frames_s\":"@, nat_text(f.paired_frames_s as nat)),
        entry(json_motion(before, f, t), ",\"seq\":"@, nat_text(f.seq as nat)),
        entry(json_motion(before, f, t), ",\"t_us\":"@, nat_text(f.t_us as nat)),
        entry(json_motion(before, f, t), ",\"motion_energy_rx1\":"@, t.motion_energy_rx1@),
        entry(json_motion(before, f, t), ",\"motion_energy_rx2\":"@, t.motion_energy_rx2@),
        entry(json_motion(before, f, t), ",\"motion_energy_fused\":"@, t.motion_energy_fused@),
        entry(json_motion(before, f, t), ",\"spectral_entropy\":"@, t.spectral_entropy@),
        entry(json_motion(before, f, t), ",\"dominant_freq_hz\":"@, nat_text(f.dominant_freq_hz as nat)),
        entry(json_motion(before, f, t), ",\"pca1\":"@, t.pca1@),
        entry(json_motion(before, f, t), ",\"pca2\":"@, t.pca2@),
        entry(json_motion(before, f, t), ",\"correlation\":"@, t.correlation@),
        entry(json_motion(before, f, t), ",\"differential\":"@, t.differential@),
        starts(json_motion(before, f, t), before + ",\"paired_frames_s\":"@),
{
    let p0 = before;
    let p1 = p0 + ",\"paired_frames_s\":"@;
    let p2 = p1 + nat_text(f.paired_frames_s as nat);
    let p3 = p2 + ",\"seq\":"@;
    let p4 = p3 + nat_text(f.seq as nat);
    let p5 = p4 + ",\"t_us\":"@;
    let p6 = p5 + nat_text(f.t_us as nat);
    let p7 = p6 + ",\"motion_energy_rx1\":"@;
    let p8 = p7 + t.motion_energy_rx1@;
    let p9 = p8 + ",\"motion_energy_rx2\":"@;
    let p10 = p9 + t.motion_energy_rx2@;
    let p11 = p10 + ",\"motion_energy_fused\":"@;
    let p12 = p11 + t.motion_energy_fused@;
    let p13 = p12 + ",\"spectral_entropy\":"@;
    let p14 = p13 + t.spectral_entropy@;
    let p15 = p14 + ",\"dominant_freq_hz\":"@;
    let p16 = p15 + nat_text(f.dominant_freq_hz as nat);
    let p17 = p16 + ",\"pca1\":"@;
    let p18 = p17 + t.pca1@;
    let p19 = p18 + ",\"pca2\":"@;
    let p20 = p19 + t.pca2@;
    let p21 = p20 + ",\"correlation\":"@;
    let p22 = p21 + t.correlation@;
    let p23 = p22 + ",\"differential\":"@;
    let p24 = p23 + t.differential@;
    let p25 = p24 + "}"@;
    assert(p25 == json_motion(before, f, t));
    starts_with_itself(p25);
    shorter_start(p25, p24, "}"@);
    shorter_start(p25, p23, t.differential@);
    shorter_start(p25, p22, ",\"differential\":"@);
    shorter_start(p25, p21, t.correlation@);
    shorter_start(p25, p20, ",\"correlation\":"@);
    shorter_start(p25, p19, t.pca2@);
    shorter_start(p25, p18, ",\"pca2\":"@);
    shorter_start(p25, p17, t.pca1@);
    shorter_start(p25, p16, ",\"pca1\":"@);
    shorter_start(p25, p15, nat_text(f.dominant_freq_hz as nat));
    shorter_start(p25, p14, ",\"dominant_freq_hz\":"@);
    shorter_start(p25, p13, t.spectral_entropy@);
    shorter_start(p25, p12, ",\"spectral_entropy\":"@);
    shorter_start(p25, p11, t.motion_energy_fused@);
    shorter_start(p25, p10, ",\"motion_energy_fused\":"@);
    shorter_start(p25, p9, t.motion_energy_rx2@);
    shorter_start(p25, p8, ",\"motion_energy_rx2\":"@);
    shorter_start(p25, p7, t.motion_energy_rx1@);
    shorter_start(p25, p6, ",\"motion_energy_rx1\":"@);
    shorter_start(p25, p5, nat_text(f.t_us as nat));
    shorter_start(p25, p4, ",\"t_us\":"@);
    shorter_start(p25, p3, nat_text(f.seq as nat));
    shorter_start(p25, p2, ",\"seq\":"@);
    shorter_start(p25, p1, nat_text(f.paired_frames_s as nat));
    shorter_start(p25, p0, ",\"paired_frames_s\":"@);
    reveal_strlit(",\"seq\":");
    reveal_strlit(",\"t_us\":");
    reveal_strlit(",\"motion_energy_rx1\":");
    reveal_strlit(",\"motion_energy_rx2\":");
    reveal_strlit(",\"motion_energy_fused\":");
    reveal_strlit(",\"spectral_entropy\":");
    reveal_strlit(",\"dominant_freq_hz\":");
    reveal_strlit(",\"pca1\":");
    reveal_strlit(",\"pca2\":");
    reveal_strlit(",\"correlation\":");
    reveal_strlit(",\"differential\":");
    reveal_strlit("}");
    next_char(p25, p2, ",\"seq\":"@);
    assert(starts(p25, p0 + ",\"paired_frames_s\":"@ + nat_text(f.paired_frames_s as nat)));
    next_char(p25, p4, ",\"t_us\":"@);
    assert(starts(p25, p2 + ",\"seq\":"@ + nat_text(f.seq as nat)));
    next_char(p25, p6, ",\"motion_energy_rx1\":"@);
    assert(starts(p25, p4 + ",\"t_us\":"@ + nat_text(f.t_us as nat)));
    next_char(p25, p8, ",\"motion_energy_rx2\":"@);
    assert(starts(p25, p6 + ",\"motion_energy_rx1\":"@ + t.motion_energy_rx1@));
    next_char(p25, p10, ",\"motion_energy_fused\":"@);
    assert(starts(p25, p8 + ",\"motion_energy_rx2\":"@ + t.motion_energy_rx2@));
    next_char(p25, p12, ",\"spectral_entropy\":"@);
    assert(starts(p25, p10 + ",\"motion_energy_fused\":"@ + t.motion_energy_fused@));
    next_char(p25, p14, ",\"dominant_freq_hz\":"@);
    assert(starts(p25, p12 + ",\"spectral_entropy\":"@ + t.spectral_entropy@));
    next_char(p25, p16, ",\"pca1\":"@);
    assert(starts(p25, p14 + ",\"dominant_freq_hz\":"@ + nat_text(f.dominant_freq_hz as nat)));
    next_char(p25, p18, ",\"pca2\":"@);
    assert(starts(p25, p16 + ",\"pca1\":"@ + t.pca1@));
    next_char(p25, p20, ",\"correlation\":"@);
    assert(starts(p25, p18 + ",\"pca2\":"@ + t.pca2@));
    next_char(p25, p22, ",\"differential\":"@);
    assert(starts(p25, p20 + ",\"correlation\":"@ + t.correlation@));
    next_char(p25, p24, "}"@);
    assert(starts(p25, p22 + ",\"differential\":"@ + t.differential@));
}

/// In the JSON object every key is followed by the text of the field that it
/// names: what is shown as one link's is that link's.
pub proof fn json_keys_name_their_values(s: StatusSnapshot, t: StatusTexts)
    ensures
        entry(snapshot_json(s, t), "{\"radar_active\":"@, flag_text(s.radar_active)),
        entry(snapshot_json(s, t), ",\"channel\":"@, nat_text(s.channel as nat)),
        entry(snapshot_json(s, t), ",\"tx_rate_hz\":"@, nat_text(s.tx_rate_hz as nat)),
        entry(snapshot_json(s, t), ",\"cal_stage\":"@, nat_text(s.cal_stage as nat)),
        entry(snapshot_json(s, t), ",\"cal_active\":"@, flag_text(s.cal_active)),
        entry(snapshot_json(s, t), ",\"occupancy\":\""@, state_name(s.frame.occupancy)),
        entry(snapshot_json(s, t), "\",\"occupancy_code\":"@, nat_text(occupancy_code(s.frame.occupancy) as nat)),
        entry(snapshot_json(s, t), ",\"confidence\":"@, nat_text(s.frame.confidence as nat)),
        entry(snapshot_json(s, t), ",\"tx_power_db\":"@, int_text(s.frame.tx_power_db as int)),
        entry(snapshot_json(s, t), ",\"rssi_rx1\":"@, int_text(s.frame.rssi_rx1 as int)),
        entry(snapshot_json(s, t), ",\"rssi_rx2\":"@, int_text(s.frame.rssi_rx2 as int)),
        entry(snapshot_json(s, t), ",\"csi_quality_rx1\":"@, nat_text(s.frame.csi_quality_rx1 as nat)),
        entry(snapshot_json(s, t), ",\"csi_quality_rx2\":"@, nat_text(s.frame.csi_quality_rx2 as nat)),
        entry(snapshot_json(s, t), ",\"sat_score_rx1\":"@, nat_text(s.frame.sat_score_rx1 as nat)),
        entry(snapshot_json(s, t), ",\"sat_score_rx2\":"@, nat_text(s.frame.sat_score_rx2 as nat)),
        entry(snapshot_json(s, t), ",\"dyn_range_rx1\":"@, nat_text(s.frame.dyn_range_rx1 as nat)),
        entry(snapshot_json(s, t), ",\"dyn_range_rx2\":"@, nat_text(s.frame.dyn_range_rx2 as nat)),
        entry(snapshot_json(s, t), ",\"packet_delivery_pct\":"@, nat_text(s.frame.packet_delivery_pct as nat)),
        entry(snapshot_json(s, t), ",\"paired_frames_s\":"@, nat_text(s.frame.paired_frames_s as nat)),
        entry(snapshot_json(s, t), ",\"seq\":"@, nat_text(s.frame.seq as nat)),
        entry(snapshot_json(s, t), ",\"t_us\":"@, nat_text(s.frame.t_us as nat)),
        entry(snapshot_json(s, t), ",\"motion_energy_rx1\":"@, t.motion_energy_rx1@),
        entry(snapshot_json(s, t), ",\"motion_energy_rx2\":"@, t.motion_energy_rx2@),
        entry(snapshot_json(s, t), ",\"motion_energy_fused\":"@, t.motion_energy_fused@),
        entry(snapshot_json(s, t), ",\"spectral_entropy\":"@, t.spectral_entropy@),
        entry(snapshot_json(s, t), ",\"dominant_freq_hz\":"@, nat_text(s.frame.dominant_freq_hz as nat)),
        entry(snapshot_json(s, t), ",\"pca1\":"@, t.pca1@),
        entry(snapshot_json(s, t), ",\"pca2\":"@, t.pca2@),
        entry(snapshot_json(s, t), ",\"correlation\":"@, t.correlation@),
        entry(snapshot_json(s, t), ",\"differential\":"@, t.differential@),
{
    let a = json_system(""@, s);
    let b = json_links(a, s.frame);
    let c = json_motion(b, s.frame, t);
    json_system_entries(""@, s);
    json_links_entries(a, s.frame);
    json_motion_entries(b, s.frame, t);
    reveal_strlit(",\"confidence\":");
    reveal_strlit(",\"paired_frames_s\":");
    next_char(b, a, ",\"confidence\":"@);
    next_char(c, b, ",\"paired_frames_s\":"@);
    assert(b[a.len() as int] == c.subrange(0, b.len() as int)[a.len() as int]);
    assert(starts(c, a)) by {
        assert(c.subrange(0, a.len() as int) =~= c.subrange(0, b.len() as int).subrange(
            0,
            a.len() as int,
        ));
    }
    entry_of_a_start(c, a, "{\"radar_active\":"@, flag_text(s.radar_active));
    entry_of_a_start(c, a, ",\"channel\":"@, nat_text(s.channel as nat));
    entry_of_a_start(c, a, ",\"tx_rate_hz\":"@, nat_text(s.tx_rate_hz as nat));
    entry_of_a_start(c, a, ",\"cal_stage\":"@, nat_text(s.cal_stage as nat));
    entry_of_a_start(c, a, ",\"cal_active\":"@, flag_text(s.cal_active));
    entry_of_a_start(c, a, ",\"occupancy\":\""@, state_name(s.frame.occupancy));
    entry_of_a_start(c, b, ",\"confidence\":"@, nat_text(s.frame.confidence as nat));
    entry_of_a_start(c, b, ",\"tx_power_db\":"@, int_text(s.frame.tx_power_db as int));
    entry_of_a_start(c, b, ",\"rssi_rx1\":"@, int_text(s.frame.rssi_rx1 as int));
    entry_of_a_start(c, b, ",\"rssi_rx2\":"@, int_text(s.frame.rssi_rx2 as int));
    entry_of_a_start(c, b, ",\"csi_quality_rx1\":"@, nat_text(s.frame.csi_quality_rx1 as nat));
    entry_of_a_start(c, b, ",\"csi_quality_rx2\":"@, nat_text(s.frame.csi_quality_rx2 as nat));
    entry_of_a_start(c, b, ",\"sat_score_rx1\":"@, nat_text(s.frame.sat_score_rx1 as nat));
    entry_of_a_start(c, b, ",\"sat_score_rx2\":"@, nat_text(s.frame.sat_score_rx2 as nat));
    entry_of_a_start(c, b, ",\"dyn_range_rx1\":"@, nat_text(s.frame.dyn_range_rx1 as nat));
    entry_of_a_start(c, b, ",\"dyn_range_rx2\":"@, nat_text(s.frame.dyn_range_rx2 as nat));
}

impl StatusSnapshot {
    fn push_system(&self, s: &mut String)
        ensures
            final(s)@ == json_system(old(s)@, *self),
    {
        s.append("{\"radar_active\":");
        push_flag(s, self.radar_active);
        s.append(",\"channel\":");
        push_dec(s, self.channel as u64);
        s.append(",\"tx_rate_hz\":");
        push_dec(s, self.tx_rate_hz as u64);
        s.append(",\"cal_stage\":");
        push_dec(s, self.cal_stage as u64);
        s.append(",\"cal_active\":");
        push_flag(s, self.cal_active);
        s.append(",\"occupancy\":\"");
        s.append(occupancy_name(self.frame.occupancy));
        s.append("\",\"occupancy_code\":");
        push_dec(s, occupancy_to_u8(self.frame.occupancy) as u64);
    }

    fn push_links(&self, s: &mut String)
        ensures
            final(s)@ == json_links(old(s)@, self.frame),
    {
        s.append(",\"confidence\":");
        push_dec(s, self.frame.confidence as u64);
        s.append(",\"tx_power_db\":");
        push_int(s, self.frame.tx_power_db as i32);
        s.append(",\"rssi_rx1\":");
        push_int(s, self.frame.rssi_rx1 as i32);
        s.append(",\"rssi_rx2\":");
        push_int(s, self.frame.rssi_rx2 as i32);
        s.append(",\"csi_quality_rx1\":");
        push_dec(s, self.frame.csi_quality_rx1 as u64);
        s.append(",\"csi_quality_rx2\":");
        push_dec(s, self.frame.csi_quality_rx2 as u64);
        s.append(",\"sat_score_rx1\":");
        push_dec(s, self.frame.sat_score_rx1 as u64);
        s.append(",\"sat_score_rx2\":");
        push_dec(s, self.frame.sat_score_rx2 as u64);
        s.append(",\"dyn_range_rx1\":");
        push_dec(s, self.frame.dyn_range_rx1 as u64);
        s.append(",\"dyn_range_rx2\":");
        push_dec(s, self.frame.dyn_range_rx2 as u64);
        s.append(",\"packet_delivery_pct\":");
        push_dec(s, self.frame.packet_delivery_pct as u64);
    }

    fn push_motion(&self, t: &StatusTexts, s: &mut String)
        ensures
            final(s)@ == json_motion(old(s)@, self.frame, *t),
    {
        s.append(",\"paired_frames_s\":");
        push_dec(s, self.frame.paired_frames_s as u64);
        s.append(",\"seq\":");
        push_dec(s, self.frame.seq as u64);
        s.append(",\"t_us\":");
        push_dec(s, self.frame.t_us as u64);
        s.append(",\"motion_energy_rx1\":");
        s.append(t.motion_energy_rx1.as_str());
        s.append(",\"motion_energy_rx2\":");
        s.append(t.motion_energy_rx2.as_str());
        s.append(",\"motion_energy_fused\":");
        s.append(t.motion_energy_fused.as_str());
        s.append(",\"spectral_entropy\":");
        s.append(t.spectral_entropy.as_str());
        s.append(",\"dominant_freq_hz\":");
        push_dec(s, self.frame.dominant_freq_hz as u64);
        s.append(",\"pca1\":");
        s.append(t.pca1.as_str());
        s.append(",\"pca2\":");
        s.append(t.pca2.as_str());
        s.append(",\"correlation\":");
        s.append(t.correlation.as_str());
        s.append(",\"differential\":");
        s.append(t.differential.as_str());
        s.append("}");
    }

    /// Compact JSON; `t` holds the texts of the real-valued fields.
    pub fn to_json(&self, t: &StatusTexts) -> (s: String)
        ensures
            s@ == snapshot_json(*self, *t),
    {
        let mut s = "".to_owned();
        self.push_system(&mut s);
        self.push_links(&mut s);
        self.push_motion(t, &mut s);
        s
    }
}

} // verus!

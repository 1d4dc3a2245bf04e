//! Deterministic synthetic streams.

use vstd::prelude::*;

use crate::protocol::payloads::{
    csi_snapshot_bytes, data_bytes, feature_head_bytes, feature_reals, feature_report_bytes,
    i16s_bytes, snapshot_head_bytes, u32s_bytes,
};
use crate::protocol::{
    build, data_flags, frame_bytes, frame_type, new_header, node, report_flags, CsiSnapshot,
    DataPayload, FeatureReport, Header, HEADER_SIZE,
};
use crate::wire::{
    from_i8, i16_bytes, put_i16, put_u32, u32_bytes, u8_of_i8, F32Bits,
};

verus! {

/// Which payload a frame carries.
#[derive(Clone, Copy, Debug, PartialEq, Eq, Structural)]
pub enum FrameKind {
    Data,
    Feature,
    Snapshot,
}

/// Generation mode: one payload kind, or an interleaved mixture.
#[derive(Clone, Copy, Debug, PartialEq, Eq, Structural)]
pub enum Mode {
    Data,
    Feature,
    Snapshot,
    Mixed,
}

/// The mode with a given name.
pub open spec fn mode_named(s: Seq<char>) -> Option<Mode> {
    if s == "data"@ {
        Some(Mode::Data)
    } else if s == "feature"@ {
        Some(Mode::Feature)
    } else if s == "snapshot"@ {
        Some(Mode::Snapshot)
    } else if s == "mixed"@ {
        Some(Mode::Mixed)
    } else {
        None
    }
}

/// Each mode has its name.
pub proof fn modes_have_their_names()
    ensures
        mode_named("data"@) == Some(Mode::Data),
        mode_named("feature"@) == Some(Mode::Feature),
        mode_named("snapshot"@) == Some(Mode::Snapshot),
        mode_named("mixed"@) == Some(Mode::Mixed),
{
    reveal_strlit("data");
    reveal_strlit("feature");
    reveal_strlit("snapshot");
    reveal_strlit("mixed");
    assert("feature"@[0] != "data"@[0]);
    assert("snapshot"@[0] != "data"@[0] && "snapshot"@[0] != "feature"@[0]);
    assert("mixed"@[0] != "data"@[0] && "mixed"@[0] != "feature"@[0] && "mixed"@[0]
        != "snapshot"@[0]);
}

/// Reads a mode name.
pub fn parse_mode(s: &str) -> (m: Option<Mode>)
    ensures
        m == mode_named(s@),
{
    if crate::text::same_text(s, "data") {
        Some(Mode::Data)
    } else if crate::text::same_text(s, "feature") {
        Some(Mode::Feature)
    } else if crate::text::same_text(s, "snapshot") {
        Some(Mode::Snapshot)
    } else if crate::text::same_text(s, "mixed") {
        Some(Mode::Mixed)
    } else {
        None
    }
}

/// The payload kind of frame `i`: in a mixture, every 200th frame is a
/// snapshot, every other 50th a report, the rest measurements.
pub open spec fn kind_of(mode: Mode, i: u64) -> FrameKind {
    match mode {
        Mode::Data => FrameKind::Data,
        Mode::Feature => FrameKind::Feature,
        Mode::Snapshot => FrameKind::Snapshot,
        Mode::Mixed => if i % 200 == 0 {
            FrameKind::Snapshot
        } else if i % 50 == 0 {
            FrameKind::Feature
        } else {
            FrameKind::Data
        },
    }
}

/// Chooses the payload kind of frame `i`.
pub fn pick(mode: Mode, i: u64) -> (k: FrameKind)
    ensures
        k == kind_of(mode, i),
{
    match mode {
        Mode::Data => FrameKind::Data,
        Mode::Feature => FrameKind::Feature,
        Mode::Snapshot => FrameKind::Snapshot,
        Mode::Mixed => if i % 200 == 0 {
            FrameKind::Snapshot
        } else if i % 50 == 0 {
            FrameKind::Feature
        } else {
            FrameKind::Data
        },
    }
}

/// One step of the xorshift64 generator.
pub open spec fn xorshift64(x: u64) -> u64 {
    let a = x ^ (x << 13);
    let b = a ^ (a >> 7);
    b ^ (b << 17)
}

/// Deterministic xorshift64 generator, so that streams are reproducible from a
/// seed.
pub struct Rng(u64);

impl View for Rng {
    type V = u64;

    closed spec fn view(&self) -> u64 {
        self.0
    }
}

impl Rng {
    /// An odd seed keeps the generator off its fixed point zero.
    pub fn new(seed: u64) -> (r: Self)
        ensures
            r@ == seed | 1,
            r@ != 0,
    {
        assert(seed | 1 != 0) by (bit_vector);
        Self(seed | 1)
    }

    pub fn next_u64(&mut self) -> (v: u64)
        ensures
            v == xorshift64(old(self)@),
            final(self)@ == v,
    {
        let mut x: u64 = self.0;
        x = x ^ (x << 13);
        x = x ^ (x >> 7);
        x = x ^ (x << 17);
        self.0 = x;
        x
    }

    /// The low half of the next number.
    pub fn next_u32(&mut self) -> (v: u32)
        ensures
            v == xorshift64(old(self)@) % 0x1_0000_0000,
            final(self)@ == xorshift64(old(self)@),
    {
        (self.next_u64() % 0x1_0000_0000) as u32
    }

    /// A number from `lo` to `hi`; `lo` if the range is empty.
    pub fn next_i16(&mut self, lo: i16, hi: i16) -> (v: i16)
        requires
            lo - 1 <= hi <= lo + 32767,
        ensures
            v == lo + (xorshift64(old(self)@) % 0x1_0000_0000) as int % (if hi >= lo {
                hi - lo + 1
            } else {
                1
            }),
            lo <= hi ==> lo <= v <= hi,
            final(self)@ == xorshift64(old(self)@),
    {
        let span: u32 = if hi >= lo {
            (hi as i32 - lo as i32 + 1) as u32
        } else {
            1
        };
        let r: u32 = self.next_u32() % span;
        (lo as i32 + r as i32) as i16
    }
}

/// The generator never reaches its fixed point: from a nonzero state the next
/// state is nonzero, and distinct states stay distinct.
pub proof fn xorshift64_is_injective(x: u64, y: u64)
    ensures
        xorshift64(x) == xorshift64(y) ==> x == y,
        x != 0 ==> xorshift64(x) != 0,
{
    let ax = x ^ (x << 13);
    let ay = y ^ (y << 13);
    let bx = ax ^ (ax >> 7);
    let by = ay ^ (ay >> 7);
    assert(x ^ (x << 13) == y ^ (y << 13) ==> x == y) by (bit_vector);
    assert(ax ^ (ax >> 7) == ay ^ (ay >> 7) ==> ax == ay) by (bit_vector);
    assert(bx ^ (bx << 17) == by ^ (by << 17) ==> bx == by) by (bit_vector);
    assert(x ^ (x << 13) == 0 ==> x == 0) by (bit_vector);
    assert(ax ^ (ax >> 7) == 0 ==> ax == 0) by (bit_vector);
    assert(bx ^ (bx << 17) == 0 ==> bx == 0) by (bit_vector);
}

/// The generator's state `n` numbers after the state `x`.
pub open spec fn state_after(x: u64, n: nat) -> u64
    decreases n,
{
    if n == 0 {
        x
    } else {
        xorshift64(state_after(x, (n - 1) as nat))
    }
}

/// The low half of the `n`-th number after the state `x`.
pub open spec fn word(x: u64, n: nat) -> u32 {
    (state_after(x, n) % 0x1_0000_0000) as u32
}

/// The numbers after `n` numbers are the later numbers.
pub proof fn states_continue(x: u64, n: nat, m: nat)
    ensures
        state_after(state_after(x, n), m) == state_after(x, n + m),
    decreases m,
{
    if m > 0 {
        states_continue(x, n, (m - 1) as nat);
    }
}

/// Draws `n` words.
fn draw_words(rng: &mut Rng, n: usize) -> (v: Vec<u32>)
    ensures
        v@.len() == n,
        forall|i: int| 0 <= i < n ==> #[trigger] v@[i] == word(old(rng)@, (i + 1) as nat),
        final(rng)@ == state_after(old(rng)@, n as nat),
{
    let mut v: Vec<u32> = Vec::new();
    let mut i: usize = 0;
    while i < n
        invariant
            i <= n,
            v@.len() == i,
            rng@ == state_after(old(rng)@, i as nat),
            forall|j: int| 0 <= j < i ==> #[trigger] v@[j] == word(old(rng)@, (j + 1) as nat),
        decreases n - i,
    {
        v.push(rng.next_u32());
        i += 1;
    }
    v
}

/// What is drawn for a synthetic report: whole figures, and the words that
/// blur its measured values.
#[derive(Clone, Copy, Debug)]
pub struct FeatureDraws {
    pub motion: u32,
    pub dominant: u32,
    pub pca0: u32,
    pub pca1: u32,
    pub n_missing: u32,
    pub rssi: i16,
    pub snr: i8,
    pub csi_quality: u8,
    pub sat_score: u8,
    pub dyn_range: u8,
    pub flags: u8,
    pub amp_mean: u32,
    pub amp_std: u32,
    pub entropy: u32,
    pub phase: u32,
    pub baseline: u32,
}

/// What is drawn for a synthetic report in the state `x`.
pub open spec fn feature_draws_at(x: u64) -> FeatureDraws {
    FeatureDraws {
        motion: word(x, 1),
        dominant: word(x, 2),
        pca0: word(x, 3),
        pca1: word(x, 4),
        n_missing: word(x, 5) % 3,
        rssi: (-62 + word(x, 6) % 11) as i16,
        snr: (20 + word(x, 7) % 10) as i8,
        csi_quality: (70 + word(x, 8) % 26) as u8,
        sat_score: (word(x, 9) % 6) as u8,
        dyn_range: (60 + word(x, 10) % 31) as u8,
        flags: if word(x, 11) % 100 == 0 {
            report_flags::OVERFLOW
        } else {
            0
        },
        amp_mean: word(x, 12),
        amp_std: word(x, 13),
        entropy: word(x, 14),
        phase: word(x, 15),
        baseline: word(x, 16),
    }
}

/// Draws for a synthetic report.
pub fn draw_feature(rng: &mut Rng) -> (d: FeatureDraws)
    ensures
        d == feature_draws_at(old(rng)@),
        final(rng)@ == state_after(old(rng)@, 16),
{
    let w = draw_words(rng, 16);
    FeatureDraws {
        motion: w[0],
        dominant: w[1],
        pca0: w[2],
        pca1: w[3],
        n_missing: w[4] % 3,
        rssi: (w[5] % 11) as i16 - 62,
        snr: (20 + w[6] % 10) as i8,
        csi_quality: (70 + w[7] % 26) as u8,
        sat_score: (w[8] % 6) as u8,
        dyn_range: (60 + w[9] % 31) as u8,
        flags: if w[10] % 100 == 0 {
            report_flags::OVERFLOW
        } else {
            0
        },
        amp_mean: w[11],
        amp_std: w[12],
        entropy: w[13],
        phase: w[14],
        baseline: w[15],
    }
}

/// What is drawn for a synthetic snapshot: the words that blur its samples
/// (three per subcarrier: amplitude, phase, display value), those that blur
/// its spectrum, and whole figures.
#[derive(Debug)]
pub struct SnapshotDraws {
    pub samples: Vec<u32>,
    pub spectrum: Vec<u32>,
    pub rssi: i16,
    pub snr: i8,
    pub csi_quality: u8,
}

/// Draws for a synthetic snapshot.
pub fn draw_snapshot(rng: &mut Rng) -> (d: SnapshotDraws)
    ensures
        d.samples@ == Seq::new(168, |i: int| word(old(rng)@, (i + 1) as nat)),
        d.spectrum@ == Seq::new(64, |i: int| word(old(rng)@, (168 + i + 1) as nat)),
        d.rssi == -62 + word(old(rng)@, 233) % 11,
        d.snr == 22 + word(old(rng)@, 234) % 8,
        d.csi_quality == 75 + word(old(rng)@, 235) % 21,
        final(rng)@ == state_after(old(rng)@, 235),
{
    let ghost x = rng@;
    let samples = draw_words(rng, 168);
    let ghost y = rng@;
    let spectrum = draw_words(rng, 64);
    let ghost z = rng@;
    let w = draw_words(rng, 3);
    proof {
        assert forall|i: int| 0 <= i <= 64 implies #[trigger] state_after(y, i as nat)
            == state_after(x, (168 + i) as nat) by {
            states_continue(x, 168, i as nat);
        }
        assert forall|i: int| 0 <= i <= 3 implies #[trigger] state_after(z, i as nat)
            == state_after(x, (232 + i) as nat) by {
            states_continue(y, 64, i as nat);
            states_continue(x, 168, (64 + i) as nat);
        }
    }
    assert(samples@ =~= Seq::new(168, |i: int| word(x, (i + 1) as nat)));
    assert(spectrum@ =~= Seq::new(64, |i: int| word(x, (168 + i + 1) as nat)));
    assert(w@[0] == word(x, 233) && w@[1] == word(x, 234) && w@[2] == word(x, 235));
    SnapshotDraws {
        samples,
        spectrum,
        rssi: (w[0] % 11) as i16 - 62,
        snr: (22 + w[1] % 8) as i8,
        csi_quality: (75 + w[2] % 21) as u8,
    }
}

/// One frame to generate.
#[derive(Clone, Copy, Debug, PartialEq, Eq, Structural)]
pub struct Job {
    pub index: u64,
    pub kind: FrameKind,
    pub src: u8,
    pub seq: u32,
    pub t_us: u64,
}

/// Frames of the given kind before frame `i`.
pub open spec fn earlier(mode: Mode, kind: FrameKind, i: nat) -> nat
    decreases i,
{
    if i == 0 {
        0
    } else {
        earlier(mode, kind, (i - 1) as nat) + if kind_of(mode, (i - 1) as u64) == kind {
            1nat
        } else {
            0
        }
    }
}

/// The frame `i` of a stream: frames are numbered from zero and a period
/// apart, and reports and snapshots come from the receivers in turn.
pub open spec fn job_at(mode: Mode, period_us: u64, i: u64) -> Job {
    let kind = kind_of(mode, i);
    Job {
        index: i,
        kind,
        src: if kind == FrameKind::Data {
            node::TX
        } else if earlier(mode, kind, i as nat) % 2 == 0 {
            node::RX1
        } else {
            node::RX2
        },
        seq: (i % 0x1_0000_0000) as u32,
        t_us: (1_000_000 + i * period_us) as u64,
    }
}

/// The place in a stream.
#[derive(Clone, Copy, Debug)]
pub struct Stream {
    pub mode: Mode,
    pub period_us: u64,
    pub next: u64,
    pub features: u64,
    pub snapshots: u64,
}

impl Stream {
    /// The counters agree with the place.
    pub open spec fn wf(self) -> bool {
        &&& self.features == earlier(self.mode, FrameKind::Feature, self.next as nat)
        &&& self.snapshots == earlier(self.mode, FrameKind::Snapshot, self.next as nat)
        &&& self.features <= self.next
        &&& self.snapshots <= self.next
    }

    /// The start of a stream.
    pub fn new(mode: Mode, rate: u64) -> (s: Self)
        ensures
            s.wf(),
            s.mode == mode,
            s.period_us == 1_000_000u64 / (if rate == 0 { 1u64 } else { rate }),
            s.next == 0,
    {
        Stream { mode, period_us: period_us(rate), next: 0, features: 0, snapshots: 0 }
    }

    /// The next frame.
    pub fn next_job(&mut self) -> (j: Job)
        requires
            old(self).wf(),
            old(self).next < u64::MAX,
            1_000_000 + old(self).next * old(self).period_us <= u64::MAX,
        ensures
            final(self).wf(),
            final(self).mode == old(self).mode,
            final(self).period_us == old(self).period_us,
            final(self).next == old(self).next + 1,
            j == job_at(old(self).mode, old(self).period_us, old(self).next),
    {
        let index: u64 = self.next;
        let kind = pick(self.mode, index);
        let src: u8 = match kind {
            FrameKind::Data => node::TX,
            FrameKind::Feature => {
                self.features += 1;
                alternate_source(self.features - 1)
            },
            FrameKind::Snapshot => {
                self.snapshots += 1;
                alternate_source(self.snapshots - 1)
            },
        };
        self.next += 1;
        Job {
            index,
            kind,
            src,
            seq: (index % 0x1_0000_0000) as u32,
            t_us: frame_time_us(index, self.period_us),
        }
    }
}

/// What a mixed stream is made of: every 200th frame is a snapshot, every 50th
/// other one a report, all others are measurements; the other modes stick to
/// one kind.
pub proof fn mixed_streams_keep_their_cadence(i: u64)
    ensures
        (kind_of(Mode::Mixed, i) == FrameKind::Snapshot) == (i % 200 == 0),
        (kind_of(Mode::Mixed, i) == FrameKind::Feature) == (i % 50 == 0 && i % 200 != 0),
        (kind_of(Mode::Mixed, i) == FrameKind::Data) == (i % 50 != 0),
        kind_of(Mode::Data, i) == FrameKind::Data,
        kind_of(Mode::Feature, i) == FrameKind::Feature,
        kind_of(Mode::Snapshot, i) == FrameKind::Snapshot,
{
}

proof fn none_between(mode: Mode, kind: FrameKind, i: nat, j: nat)
    requires
        i <= j <= u64::MAX,
        forall|k: u64| i <= k < j ==> #[trigger] kind_of(mode, k) != kind,
    ensures
        earlier(mode, kind, j) == earlier(mode, kind, i),
    decreases j - i,
{
    if i < j {
        assert(kind_of(mode, (j - 1) as u64) != kind);
        none_between(mode, kind, i, (j - 1) as nat);
    }
}

/// Measurements come from the transmitter. Reports and snapshots come from the
/// two receivers by turns, each kind for itself, the first from the first
/// receiver.
pub proof fn receivers_take_turns(mode: Mode, period_us: u64, i: u64, j: u64)
    requires
        i < j,
        kind_of(mode, i) == kind_of(mode, j),
        forall|k: u64| i < k < j ==> #[trigger] kind_of(mode, k) != kind_of(mode, i),
    ensures
        kind_of(mode, i) == FrameKind::Data ==> job_at(mode, period_us, i).src == node::TX,
        kind_of(mode, i) != FrameKind::Data ==> {
            let (a, b) = (job_at(mode, period_us, i).src, job_at(mode, period_us, j).src);
            &&& a == node::RX1 || a == node::RX2
            &&& b == if a == node::RX1 {
                node::RX2
            } else {
                node::RX1
            }
        },
        kind_of(mode, 0) != FrameKind::Data ==> job_at(mode, period_us, 0).src == node::RX1,
{
    let kind = kind_of(mode, i);
    let next = (i + 1) as nat;
    assert forall|k: u64| next <= k < j implies #[trigger] kind_of(mode, k) != kind by {}
    none_between(mode, kind, next, j as nat);
    assert(earlier(mode, kind, next) == earlier(mode, kind, i as nat) + 1);
}

/// A frame of a stream is of its kind, numbered and timed by its place.
pub proof fn frames_are_numbered_and_timed(mode: Mode, period_us: u64, i: u64)
    requires
        1_000_000 + i * period_us <= u64::MAX,
    ensures
        job_at(mode, period_us, i).index == i,
        job_at(mode, period_us, i).kind == kind_of(mode, i),
        i <= u32::MAX ==> job_at(mode, period_us, i).seq == i,
        job_at(mode, period_us, i).t_us - 1_000_000 == i * period_us,
{
}

/// A synthetic measurement announces a power from 20 to 34 dBm, one more than
/// the frame before until it starts over, and every 500th is marked.
pub proof fn synthetic_power_cycles(i: u64)
    requires
        i < u64::MAX,
    ensures
        20 <= synthetic_data(i).tx_power_db <= 34,
        synthetic_data(0).tx_power_db == 20,
        synthetic_data((i + 1) as u64).tx_power_db == if synthetic_data(i).tx_power_db == 34 {
            20
        } else {
            synthetic_data(i).tx_power_db + 1
        },
        (synthetic_data(i).flags != 0) == (i % 500 == 0),
{
}

/// What is drawn for a report lies in the ranges of a healthy link.
pub proof fn drawn_reports_are_plausible(x: u64)
    ensures
        ({
            let d = feature_draws_at(x);
            &&& d.n_missing <= 2
            &&& -62 <= d.rssi <= -52
            &&& 20 <= d.snr <= 29
            &&& 70 <= d.csi_quality <= 95
            &&& d.sat_score <= 5
            &&& 60 <= d.dyn_range <= 90
        }),
{
}

/// Time stamps of a stream never go back, and its numbers follow one another.
pub proof fn stream_is_in_order(mode: Mode, period_us: u64, i: u64)
    requires
        i < u64::MAX,
        1_000_000 + (i + 1) * period_us <= u64::MAX,
    ensures
        job_at(mode, period_us, (i + 1) as u64).t_us == job_at(mode, period_us, i).t_us + period_us,
        job_at(mode, period_us, (i + 1) as u64).seq == (job_at(mode, period_us, i).seq + 1)
            % 0x1_0000_0000,
{
    assert((i + 1) * period_us == i * period_us + period_us) by (nonlinear_arith);
    assert(0 <= i * period_us) by (nonlinear_arith);
}

/// Time of frame `i` at a frame period: streams start at one second.
pub fn frame_time_us(i: u64, period_us: u64) -> (t: u64)
    requires
        1_000_000 + i * period_us <= u64::MAX,
    ensures
        t == 1_000_000 + i * period_us,
{
    assert(i * period_us <= u64::MAX);
    1_000_000 + i * period_us
}

/// Frame period at a rate; a rate of 0 counts as 1.
pub fn period_us(rate: u64) -> (p: u64)
    ensures
        p == 1_000_000u64 / (if rate == 0 { 1u64 } else { rate }),
{
    1_000_000 / (if rate == 0 {
        1
    } else {
        rate
    })
}

/// The receiver that sends the `idx`-th report or snapshot: they alternate.
pub fn alternate_source(idx: u64) -> (src: u8)
    ensures
        src == if idx % 2 == 0 { node::RX1 } else { node::RX2 },
{
    if idx % 2 == 0 {
        node::RX1
    } else {
        node::RX2
    }
}

/// The measurement payload of frame `i`.
pub open spec fn synthetic_data(i: u64) -> DataPayload {
    DataPayload {
        tx_power_db: (20 + i % 15) as u8,
        flags: if i % 500 == 0 { data_flags::SYNC } else { 0 },
    }
}

/// The measurement frame at position `i` of a stream.
pub fn data_frame(i: u64, seq: u32, t_us: u64) -> (frame: Vec<u8>)
    ensures
        frame@ == frame_bytes(
            new_header(frame_type::DATA_FRAME, node::TX, 0, seq, t_us, 2),
            data_bytes(synthetic_data(i)),
        ),
{
    let flags: u8 = if i % 500 == 0 {
        data_flags::SYNC
    } else {
        0
    };
    let payload: [u8; 2] = [(20 + i % 15) as u8, flags];
    let hdr = Header::new(frame_type::DATA_FRAME, node::TX, 0, seq, t_us, 2);
    assert(payload@ =~= data_bytes(synthetic_data(i)));
    build_frame(&hdr, payload.as_slice())
}

/// The frame of a feature report.
pub fn feature_frame(src: u8, fr: &FeatureReport, seq: u32, t_us: u64) -> (frame: Vec<u8>)
    ensures
        frame@ == frame_bytes(
            new_header(frame_type::FEATURE_REPORT, src, node::TX, seq, t_us, 79),
            feature_report_bytes(*fr),
        ),
{
    let payload = feature_bytes(fr);
    proof {
        crate::protocol::payloads::feature_report_round_trip(*fr, Seq::empty());
    }
    let hdr = Header::new(
        frame_type::FEATURE_REPORT,
        src,
        node::TX,
        seq,
        t_us,
        payload.len() as u16,
    );
    build_frame(&hdr, payload.as_slice())
}

/// The frame of a CSI snapshot.
pub fn snapshot_frame(src: u8, snap: &CsiSnapshot, seq: u32, t_us: u64) -> (frame: Vec<u8>)
    ensures
        frame@ == frame_bytes(
            new_header(frame_type::CSI_SNAPSHOT, src, node::TX, seq, t_us, 359),
            csi_snapshot_bytes(*snap),
        ),
{
    let payload = snapshot_bytes(snap);
    proof {
        crate::protocol::payloads::csi_snapshot_round_trip(*snap, Seq::empty());
    }
    let hdr = Header::new(
        frame_type::CSI_SNAPSHOT,
        src,
        node::TX,
        seq,
        t_us,
        payload.len() as u16,
    );
    build_frame(&hdr, payload.as_slice())
}

/// Serializes a header and its payload into a complete frame.
pub fn build_frame(hdr: &Header, payload: &[u8]) -> (frame: Vec<u8>)
    requires
        payload@.len() <= u16::MAX,
    ensures
        frame@ == frame_bytes(*hdr, payload@),
{
    let mut buf: Vec<u8> = vec![0u8; HEADER_SIZE + payload.len()];
    let _ = build(buf.as_mut_slice(), hdr, payload);
    proof {
        crate::protocol::header_round_trip(
            crate::protocol::sealed(*hdr, payload@),
            Seq::empty(),
        );
        assert(buf@ =~= frame_bytes(*hdr, payload@));
    }
    buf
}

/// Little-endian byte writer for the payload structures.
pub struct W {
    pub buf: Vec<u8>,
}

impl W {
    pub fn u8(&mut self, v: u8)
        ensures
            final(self).buf@ == old(self).buf@.push(v),
    {
        self.buf.push(v);
    }

    pub fn i8(&mut self, v: i8)
        ensures
            final(self).buf@ == old(self).buf@.push(u8_of_i8(v)),
    {
        self.buf.push(from_i8(v));
    }

    pub fn i16(&mut self, v: i16)
        ensures
            final(self).buf@ == old(self).buf@ + i16_bytes(v),
    {
        put_i16(&mut self.buf, v);
    }

    pub fn u32(&mut self, v: u32)
        ensures
            final(self).buf@ == old(self).buf@ + u32_bytes(v),
    {
        put_u32(&mut self.buf, v);
    }

    /// Writes the bit pattern of a single-precision number.
    pub fn single(&mut self, v: F32Bits)
        ensures
            final(self).buf@ == old(self).buf@ + u32_bytes(v),
    {
        put_u32(&mut self.buf, v);
    }
}

/// Serializes a [`FeatureReport`] field by field, in the order in which the
/// receivers expect it.
pub fn feature_bytes(fr: &FeatureReport) -> (out: Vec<u8>)
    ensures
        out@ == feature_report_bytes(*fr),
{
    let mut w = W { buf: Vec::with_capacity(79) };
    w.u32(fr.seq);
    w.u32(fr.n_frames);
    w.u32(fr.n_missing);
    w.i16(fr.rssi);
    w.i8(fr.snr);
    w.u8(fr.csi_quality);
    w.u8(fr.sat_score);
    w.u8(fr.dyn_range);
    w.u8(fr.flags);
    assert(w.buf@ =~= feature_head_bytes(*fr));
    w.single(fr.amp_mean);
    w.single(fr.amp_std);
    w.single(fr.motion_energy);
    w.single(fr.spectral_entropy);
    w.single(fr.dominant_freq_hz);
    w.single(fr.phase_dispersion);
    w.single(fr.baseline_dev);
    assert(w.buf@ =~= feature_head_bytes(*fr) + u32s_bytes(feature_reals(*fr)));
    let ghost front = w.buf@;
    let mut i: usize = 0;
    assert(u32s_bytes(fr.pca_scores@.take(0)) =~= Seq::empty());
    while i < 8
        invariant
            i <= 8,
            w.buf@ == front + u32s_bytes(fr.pca_scores@.take(i as int)),
        decreases 8 - i,
    {
        w.single(fr.pca_scores[i]);
        i += 1;
        assert(u32s_bytes(fr.pca_scores@.take(i as int)) =~= u32s_bytes(
            fr.pca_scores@.take(i - 1),
        ) + u32_bytes(fr.pca_scores@[i - 1]));
    }
    assert(fr.pca_scores@.take(8) =~= fr.pca_scores@);
    w.buf
}

/// Serializes a [`CsiSnapshot`] field by field: the fixed head, then `iq`,
/// `amp_norm` and `spec`.
pub fn snapshot_bytes(s: &CsiSnapshot) -> (out: Vec<u8>)
    ensures
        out@ == csi_snapshot_bytes(*s),
{
    let mut w = W { buf: Vec::with_capacity(359) };
    w.u32(s.seq);
    w.i16(s.rssi);
    w.i8(s.snr);
    w.u8(s.csi_quality);
    w.single(s.noise_floor);
    w.u8(s.flags);
    w.u8(s.n_sub);
    w.u8(s.reserved);
    assert(w.buf@ =~= snapshot_head_bytes(*s));
    let ghost head = w.buf@;
    let mut i: usize = 0;
    assert(i16s_bytes(s.iq@.take(0)) =~= Seq::empty());
    while i < 112
        invariant
            i <= 112,
            w.buf@ == head + i16s_bytes(s.iq@.take(i as int)),
        decreases 112 - i,
    {
        w.i16(s.iq[i]);
        i += 1;
        assert(i16s_bytes(s.iq@.take(i as int)) =~= i16s_bytes(s.iq@.take(i - 1)) + i16_bytes(
            s.iq@[i - 1],
        ));
    }
    assert(s.iq@.take(112) =~= s.iq@);
    let ghost front = w.buf@;
    let mut j: usize = 0;
    while j < 56
        invariant
            j <= 56,
            w.buf@ == front + s.amp_norm@.take(j as int),
        decreases 56 - j,
    {
        w.u8(s.amp_norm[j]);
        j += 1;
        assert(s.amp_norm@.take(j as int) =~= s.amp_norm@.take(j - 1).push(s.amp_norm@[j - 1]));
    }
    assert(s.amp_norm@.take(56) =~= s.amp_norm@);
    let ghost most = w.buf@;
    let mut k: usize = 0;
    while k < 64
        invariant
            k <= 64,
            w.buf@ == most + s.spec@.take(k as int),
        decreases 64 - k,
    {
        w.u8(s.spec[k]);
        k += 1;
        assert(s.spec@.take(k as int) =~= s.spec@.take(k - 1).push(s.spec@[k - 1]));
    }
    assert(s.spec@.take(64) =~= s.spec@);
    w.buf
}

} // verus!

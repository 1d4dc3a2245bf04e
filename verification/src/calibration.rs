//! Fixed-head calibration artifacts.
//!
//! The boards are never repositioned, so calibration characterises the fixed
//! propagation geometry: the empty-room baseline, the dependence of received
//! on transmitted power, and the classifier thresholds. All artifacts have a
//! fixed-size stored form. Real-valued quantities are carried as bit patterns.

use vstd::prelude::*;

use crate::dsp::transform::{Normalizer, ONE};
use crate::features::{
    ClassifierParams, DEFAULT_CORR_WEIGHT, DEFAULT_EMPTY, DEFAULT_HOLD_FRAMES, DEFAULT_MOVE,
    DEFAULT_STATIC, DEFAULT_STRONG,
};
use crate::protocol::payloads::{put_u32s, u32s_bytes, u32s_read_back};
use crate::wire::{
    get_i16, get_u32, i16_at, i16_bytes, i16_round_trip, put_i16, put_u32, u16_of_i16,
    u16_round_trip, u32_at, u32_bytes, u32_round_trip, write_at, F32Bits,
};

verus! {

/// Where the active classifier thresholds came from.
#[derive(Clone, Copy, Debug, PartialEq, Eq, Structural)]
pub enum ThresholdSource {
    /// No calibration has been run yet.
    Default,
    /// Overridden by a completed calibration run.
    Calibrated,
}

/// Quiet-room samples a baseline needs to be valid.
pub const MIN_BASELINE_SAMPLES: u32 = 100;

/// Per-subcarrier statistics of the empty room.
#[derive(Clone, Copy, Debug)]
pub struct BaselineStats {
    pub mean: [F32Bits; 56],
    pub std: [F32Bits; 56],
    pub n_samples: u32,
    /// Mean RSSI during collection (dBm).
    pub rssi_mean: i16,
    /// Mean noise floor during collection (dBm).
    pub noise_floor: F32Bits,
    pub valid: bool,
}

/// `s` is the baseline of a head that has none yet.
pub open spec fn is_blank_baseline(s: BaselineStats) -> bool {
    &&& s.mean@ == Seq::new(56, |k: int| 0u32)
    &&& s.std@ == Seq::new(56, |k: int| ONE)
    &&& s.n_samples == 0
    &&& s.rssi_mean == 0
    &&& s.noise_floor == 0
    &&& !s.valid
}

/// The stored form of a baseline.
pub open spec fn baseline_bytes(s: BaselineStats) -> Seq<u8> {
    u32s_bytes(s.mean@) + u32s_bytes(s.std@) + u32_bytes(s.n_samples) + i16_bytes(s.rssi_mean)
        + u32_bytes(s.noise_floor) + seq![
        if s.valid {
            1u8
        } else {
            0u8
        },
    ]
}

/// `s` is the baseline that `b` starts with.
pub open spec fn baseline_at(b: Seq<u8>, s: BaselineStats) -> bool {
    &&& forall|k: int| 0 <= k < 56 ==> #[trigger] s.mean@[k] == u32_at(b, 4 * k)
    &&& forall|k: int| 0 <= k < 56 ==> #[trigger] s.std@[k] == u32_at(b, 224 + 4 * k)
    &&& s.n_samples == u32_at(b, 448)
    &&& s.rssi_mean == i16_at(b, 452)
    &&& s.noise_floor == u32_at(b, 454)
    &&& s.valid == (b[458] != 0)
}

/// A stored baseline is read back unchanged, whatever bytes follow it.
pub proof fn baseline_round_trip(s: BaselineStats, rest: Seq<u8>, t: BaselineStats)
    requires
        baseline_at(baseline_bytes(s) + rest, t),
    ensures
        baseline_bytes(s).len() == 459,
        t == s,
{
    let b = baseline_bytes(s) + rest;
    assert(b.subrange(448, 452) =~= u32_bytes(s.n_samples));
    assert(b.subrange(452, 454) =~= i16_bytes(s.rssi_mean));
    assert(b.subrange(454, 458) =~= u32_bytes(s.noise_floor));
    u32_round_trip(b, 448, s.n_samples);
    u16_round_trip(b, 452, u16_of_i16(s.rssi_mean));
    i16_round_trip(s.rssi_mean);
    u32_round_trip(b, 454, s.noise_floor);
    assert forall|k: int| 0 <= k < 56 implies #[trigger] t.mean@[k] == s.mean@[k] by {
        u32s_read_back(b, 0, s.mean@, k);
    }
    assert forall|k: int| 0 <= k < 56 implies #[trigger] t.std@[k] == s.std@[k] by {
        u32s_read_back(b, 224, s.std@, k);
    }
    assert(t.mean =~= s.mean);
    assert(t.std =~= s.std);
}

impl Default for BaselineStats {
    fn default() -> (s: Self)
        ensures
            is_blank_baseline(s),
    {
        let s = BaselineStats {
            mean: [0u32; 56],
            std: [ONE; 56],
            n_samples: 0,
            rssi_mean: 0,
            noise_floor: 0,
            valid: false,
        };
        assert(s.mean@ =~= Seq::new(56, |k: int| 0u32));
        assert(s.std@ =~= Seq::new(56, |k: int| ONE));
        s
    }
}

impl BaselineStats {
    /// Stored size.
    pub const SERIALIZED_LEN: usize = 459;

    /// The reference for z-scores against this baseline.
    pub fn normalizer(&self) -> (n: Normalizer)
        ensures
            n.base == self.mean,
            n.scale == self.std,
    {
        Normalizer { base: self.mean, scale: self.std }
    }

    /// Encodes for storage.
    pub fn to_bytes(&self) -> (out: [u8; 459])
        ensures
            out@ == baseline_bytes(*self),
    {
        let mut v: Vec<u8> = Vec::new();
        put_u32s(&mut v, self.mean.as_slice());
        put_u32s(&mut v, self.std.as_slice());
        put_u32(&mut v, self.n_samples);
        put_i16(&mut v, self.rssi_mean);
        put_u32(&mut v, self.noise_floor);
        v.push(
            if self.valid {
                1
            } else {
                0
            },
        );
        assert(v@ =~= baseline_bytes(*self));
        let mut out = [0u8; 459];
        write_at(&mut out, 0, v.as_slice());
        assert(out@ =~= baseline_bytes(*self));
        out
    }

    /// Decodes a stored blob; a short one gives an invalid baseline.
    pub fn from_bytes(b: &[u8]) -> (s: Self)
        ensures
            b@.len() < 459 ==> is_blank_baseline(s),
            b@.len() >= 459 ==> baseline_at(b@, s),
    {
        if b.len() < 459 {
            return BaselineStats::default();
        }
        let mut mean: [F32Bits; 56] = [0u32; 56];
        let mut std: [F32Bits; 56] = [0u32; 56];
        let mut i: usize = 0;
        while i < 56
            invariant
                i <= 56,
                b@.len() >= 459,
                forall|k: int| 0 <= k < i ==> #[trigger] mean@[k] == u32_at(b@, 4 * k),
                forall|k: int| 0 <= k < i ==> #[trigger] std@[k] == u32_at(b@, 224 + 4 * k),
            decreases 56 - i,
        {
            mean[i] = get_u32(b, 4 * i);
            std[i] = get_u32(b, 224 + 4 * i);
            i += 1;
        }
        BaselineStats {
            mean,
            std,
            n_samples: get_u32(b, 448),
            rssi_mean: get_i16(b, 452),
            noise_floor: get_u32(b, 454),
            valid: b[458] != 0,
        }
    }
}

/// Where a stored baseline holds its values.
pub proof fn baseline_layout(s: BaselineStats, t: BaselineStats, k: int)
    requires
        0 <= k < 56,
        baseline_at(baseline_bytes(s), t),
    ensures
        u32_at(baseline_bytes(s), 4 * k) == s.mean@[k],
        u32_at(baseline_bytes(s), 224 + 4 * k) == s.std@[k],
        u32_at(baseline_bytes(s), 448) == s.n_samples,
        i16_at(baseline_bytes(s), 452) == s.rssi_mean,
        u32_at(baseline_bytes(s), 454) == s.noise_floor,
        (baseline_bytes(s)[458] != 0) == s.valid,
{
    assert(baseline_bytes(s) + Seq::empty() =~= baseline_bytes(s));
    baseline_round_trip(s, Seq::empty(), t);
    assert(t.mean@[k] == u32_at(baseline_bytes(s), 4 * k));
    assert(t.std@[k] == u32_at(baseline_bytes(s), 224 + 4 * k));
}

/// The integer nearest to `sum / n`, halves away from zero.
pub open spec fn rounded_mean(sum: int, n: int) -> int {
    if sum >= 0 {
        (2 * sum + n) / (2 * n)
    } else {
        -((n - 2 * sum) / (2 * n))
    }
}

/// Rounding errs by at most a half.
pub proof fn rounded_mean_is_near(sum: int, n: int)
    requires
        n > 0,
    ensures
        2 * rounded_mean(sum, n) * n - n <= 2 * sum <= 2 * rounded_mean(sum, n) * n + n,
{
    let m = if sum >= 0 {
        sum
    } else {
        -sum
    };
    let q = (2 * m + n) / (2 * n);
    assert(2 * n * q <= 2 * m + n < 2 * n * q + 2 * n) by (nonlinear_arith)
        requires
            q == (2 * m + n) / (2 * n),
            n > 0,
    ;
    assert(2 * n * q == 2 * q * n) by (nonlinear_arith);
    assert(2 * (-q) * n == -(2 * q * n)) by (nonlinear_arith);
}

/// Halves are rounded away from zero, and signs do not matter otherwise.
pub proof fn rounding_is_away_from_zero(sum: int, n: int)
    requires
        n > 0,
    ensures
        sum >= 0 ==> 2 * sum < 2 * rounded_mean(sum, n) * n + n,
        sum < 0 ==> 2 * sum > 2 * rounded_mean(sum, n) * n - n,
        rounded_mean(-sum, n) == -rounded_mean(sum, n),
{
    let m = if sum >= 0 {
        sum
    } else {
        -sum
    };
    let q = (2 * m + n) / (2 * n);
    assert(2 * n * q <= 2 * m + n < 2 * n * q + 2 * n) by (nonlinear_arith)
        requires
            q == (2 * m + n) / (2 * n),
            n > 0,
    ;
    assert(2 * n * q == 2 * q * n) by (nonlinear_arith);
    assert(2 * (-q) * n == -(2 * q * n)) by (nonlinear_arith);
    if sum == 0 {
        assert(n / (2 * n) == 0) by (nonlinear_arith)
            requires
                n > 0,
        ;
    }
}

/// Counts of the quiet-room collection: how many samples were taken and the
/// sum of their signal strengths.
#[derive(Debug)]
pub struct BaselineCollector {
    count: u32,
    rssi_sum: i64,
}

impl BaselineCollector {
    pub closed spec fn samples(self) -> nat {
        self.count as nat
    }

    pub closed spec fn rssi_sum(self) -> int {
        self.rssi_sum as int
    }

    /// The sum is one of as many 16-bit values as were counted.
    pub open spec fn wf(self) -> bool {
        &&& self.samples() <= u32::MAX
        &&& -32768 * self.samples() <= self.rssi_sum() <= 32767 * self.samples()
    }

    /// A collection with no sample.
    pub fn new() -> (c: Self)
        ensures
            c.wf(),
            c.samples() == 0,
            c.rssi_sum() == 0,
    {
        BaselineCollector { count: 0, rssi_sum: 0 }
    }

    /// Takes one sample; an invalid one does not count.
    pub fn update(&mut self, valid: bool, rssi: i16)
        requires
            old(self).wf(),
            old(self).samples() < u32::MAX,
        ensures
            final(self).wf(),
            final(self).samples() == old(self).samples() + if valid {
                1int
            } else {
                0
            },
            final(self).rssi_sum() == old(self).rssi_sum() + if valid {
                rssi as int
            } else {
                0
            },
    {
        if !valid {
            return;
        }
        self.count = self.count + 1;
        self.rssi_sum = self.rssi_sum + rssi as i64;
    }

    /// Samples taken.
    pub fn count(&self) -> (n: u32)
        ensures
            n == self.samples(),
    {
        self.count
    }

    /// The baseline with the given per-subcarrier statistics and noise floor.
    /// It is valid once enough samples were taken.
    pub fn finish(
        &self,
        mean: [F32Bits; 56],
        std: [F32Bits; 56],
        noise_floor: F32Bits,
    ) -> (s: BaselineStats)
        requires
            self.wf(),
        ensures
            s.mean == mean,
            s.std == std,
            s.noise_floor == noise_floor,
            s.n_samples == self.samples(),
            s.rssi_mean == rounded_mean(
                self.rssi_sum(),
                if self.samples() == 0 {
                    1
                } else {
                    self.samples() as int
                },
            ),
            s.valid == (self.samples() >= MIN_BASELINE_SAMPLES),
    {
        let n: u64 = if self.count == 0 {
            1
        } else {
            self.count as u64
        };
        let m: u64 = if self.rssi_sum >= 0 {
            self.rssi_sum as u64
        } else {
            (-self.rssi_sum) as u64
        };
        let q: u64 = (2 * m + n) / (2 * n);
        proof {
            let (mi, ni, qi) = (m as int, n as int, q as int);
            if self.rssi_sum >= 0 {
                assert(qi <= 32767) by (nonlinear_arith)
                    requires
                        qi == (2 * mi + ni) / (2 * ni),
                        mi <= 32767 * ni,
                        ni > 0,
                ;
            } else {
                assert(qi <= 32768) by (nonlinear_arith)
                    requires
                        qi == (2 * mi + ni) / (2 * ni),
                        mi <= 32768 * ni,
                        ni > 0,
                ;
            }
        }
        let rssi_mean: i16 = if self.rssi_sum >= 0 {
            q as i16
        } else {
            (-(q as i32)) as i16
        };
        BaselineStats {
            mean,
            std,
            n_samples: self.count,
            rssi_mean,
            noise_floor,
            valid: self.count >= MIN_BASELINE_SAMPLES,
        }
    }

    /// Forgets all samples.
    pub fn reset(&mut self)
        ensures
            final(self).wf(),
            final(self).samples() == 0,
            final(self).rssi_sum() == 0,
    {
        self.count = 0;
        self.rssi_sum = 0;
    }
}

impl Default for BaselineCollector {
    fn default() -> (c: Self)
        ensures
            c.wf(),
            c.samples() == 0,
            c.rssi_sum() == 0,
    {
        BaselineCollector::new()
    }
}

/// One point of the transmit power sweep.
#[derive(Clone, Copy, Debug, PartialEq, Eq, Structural)]
pub struct SweepPoint {
    pub tx_power_db: i16,
    pub rssi: i16,
    pub snr: i8,
    pub csi_quality: u8,
    pub sat_score: u8,
    pub dyn_range: u8,
}

impl Default for SweepPoint {
    fn default() -> (p: Self)
        ensures
            p == (SweepPoint {
                tx_power_db: 0,
                rssi: 0,
                snr: 0,
                csi_quality: 0,
                sat_score: 0,
                dyn_range: 0,
            }),
    {
        SweepPoint { tx_power_db: 0, rssi: 0, snr: 0, csi_quality: 0, sat_score: 0, dyn_range: 0 }
    }
}

/// Sum of the transmit powers.
pub open spec fn sum_power(p: Seq<SweepPoint>) -> int
    decreases p.len(),
{
    if p.len() == 0 {
        0
    } else {
        sum_power(p.drop_last()) + p.last().tx_power_db
    }
}

/// Sum of the received powers.
pub open spec fn sum_rssi(p: Seq<SweepPoint>) -> int
    decreases p.len(),
{
    if p.len() == 0 {
        0
    } else {
        sum_rssi(p.drop_last()) + p.last().rssi
    }
}

/// Sum of the squared transmit powers.
pub open spec fn sum_square(p: Seq<SweepPoint>) -> int
    decreases p.len(),
{
    if p.len() == 0 {
        0
    } else {
        sum_square(p.drop_last()) + p.last().tx_power_db * p.last().tx_power_db
    }
}

/// Sum of the products of transmit and received power.
pub open spec fn sum_product(p: Seq<SweepPoint>) -> int
    decreases p.len(),
{
    if p.len() == 0 {
        0
    } else {
        sum_product(p.drop_last()) + p.last().tx_power_db * p.last().rssi
    }
}

/// Denominator of the least-squares slope.
pub open spec fn spread(p: Seq<SweepPoint>) -> int {
    p.len() * sum_square(p) - sum_power(p) * sum_power(p)
}

/// Numerator of the least-squares slope.
pub open spec fn covariation(p: Seq<SweepPoint>) -> int {
    p.len() * sum_product(p) - sum_power(p) * sum_rssi(p)
}

/// Squared distances of the transmit powers from `x`.
spec fn distances(p: Seq<SweepPoint>, x: int) -> int {
    sum_square(p) - 2 * x * sum_power(p) + p.len() * (x * x)
}

proof fn distances_vanish_at_one_power(p: Seq<SweepPoint>, x: int)
    ensures
        distances(p, x) >= 0,
        distances(p, x) == 0 <==> forall|i: int|
            0 <= i < p.len() ==> (#[trigger] p[i]).tx_power_db == x,
    decreases p.len(),
{
    if p.len() > 0 {
        let q = p.drop_last();
        let y = p.last().tx_power_db as int;
        distances_vanish_at_one_power(q, x);
        assert(distances(p, x) == distances(q, x) + (y - x) * (y - x)) by {
            assert(2 * x * (sum_power(q) + y) == 2 * x * sum_power(q) + 2 * x * y)
                by (nonlinear_arith);
            assert((q.len() + 1) * (x * x) == q.len() * (x * x) + x * x) by (nonlinear_arith);
            assert((y - x) * (y - x) == y * y - 2 * x * y + x * x) by (nonlinear_arith);
        }
        assert((y - x) * (y - x) >= 0 && ((y - x) * (y - x) == 0 <==> y == x))
            by (nonlinear_arith);
        assert forall|i: int| 0 <= i < q.len() implies #[trigger] q[i] == p[i] by {}
        if distances(p, x) == 0 {
            assert forall|i: int| 0 <= i < p.len() implies (#[trigger] p[i]).tx_power_db == x by {
                if i < q.len() {
                    assert(q[i].tx_power_db == x);
                }
            }
        } else if forall|i: int| 0 <= i < p.len() ==> (#[trigger] p[i]).tx_power_db == x {
            assert(p[p.len() - 1].tx_power_db == x);
            assert forall|i: int| 0 <= i < q.len() implies (#[trigger] q[i]).tx_power_db == x by {
                assert(p[i].tx_power_db == x);
            }
        }
    }
}

/// A sweep determines a line exactly when it visits two different powers.
pub proof fn spread_vanishes_at_one_power(p: Seq<SweepPoint>)
    ensures
        spread(p) >= 0,
        spread(p) == 0 <==> forall|i: int, j: int|
            0 <= i < p.len() && 0 <= j < p.len() ==> (#[trigger] p[i]).tx_power_db == (
            #[trigger] p[j]).tx_power_db,
    decreases p.len(),
{
    if p.len() > 0 {
        let q = p.drop_last();
        let y = p.last().tx_power_db as int;
        spread_vanishes_at_one_power(q);
        distances_vanish_at_one_power(q, y);
        assert(spread(p) == spread(q) + distances(q, y)) by {
            let (n, a, b) = (q.len() as int, sum_square(q), sum_power(q));
            assert((n + 1) * (a + y * y) - (b + y) * (b + y) == (n * a - b * b) + (a - 2 * y * b + n
                * (y * y))) by (nonlinear_arith);
        }
        assert forall|i: int| 0 <= i < q.len() implies #[trigger] q[i] == p[i] by {}
        let last = p.len() - 1;
        assert(p[last].tx_power_db == y);
        if spread(p) == 0 {
            assert forall|i: int, j: int|
                0 <= i < p.len() && 0 <= j < p.len() implies (#[trigger] p[i]).tx_power_db == (
            #[trigger] p[j]).tx_power_db by {
                if i < last {
                    assert(q[i].tx_power_db == y);
                }
                if j < last {
                    assert(q[j].tx_power_db == y);
                }
            }
        } else if forall|i: int, j: int|
            0 <= i < p.len() && 0 <= j < p.len() ==> (#[trigger] p[i]).tx_power_db == (
            #[trigger] p[j]).tx_power_db {
            assert forall|i: int| 0 <= i < q.len() implies (#[trigger] q[i]).tx_power_db == y by {
                assert(p[i].tx_power_db == p[last].tx_power_db);
            }
            assert forall|i: int, j: int|
                0 <= i < q.len() && 0 <= j < q.len() implies (#[trigger] q[i]).tx_power_db == (
            #[trigger] q[j]).tx_power_db by {
                assert(p[i].tx_power_db == p[j].tx_power_db);
            }
        }
    }
}

/// The least-squares line of a sweep, in exact integers: its slope is
/// `numer / denom`, and its intercept `(sum_rssi - slope * sum_power) / n`.
#[derive(Clone, Copy, Debug, PartialEq, Eq, Structural)]
pub struct Line {
    pub numer: i128,
    pub denom: i128,
    pub sum_power: i64,
    pub sum_rssi: i64,
    pub n: u32,
}

/// How far a point lies above a line, times `n * denom`.
pub open spec fn residual(pt: SweepPoint, line: Line) -> int {
    line.n * line.denom * pt.rssi - line.n * line.numer * pt.tx_power_db - (line.denom
        * line.sum_rssi - line.numer * line.sum_power)
}

/// Sum of what the points lie above a line.
pub open spec fn residual_sum(p: Seq<SweepPoint>, line: Line) -> int
    decreases p.len(),
{
    if p.len() == 0 {
        0
    } else {
        residual_sum(p.drop_last(), line) + residual(p.last(), line)
    }
}

/// The same sum, each point weighted by its transmit power.
pub open spec fn weighted_residual_sum(p: Seq<SweepPoint>, line: Line) -> int
    decreases p.len(),
{
    if p.len() == 0 {
        0
    } else {
        weighted_residual_sum(p.drop_last(), line) + p.last().tx_power_db * residual(p.last(), line)
    }
}

/// Sum of the squares of `scale * rssi - (slope * tx_power_db + offset)`.
pub open spec fn squared_error(p: Seq<SweepPoint>, scale: int, slope: int, offset: int) -> int
    decreases p.len(),
{
    if p.len() == 0 {
        0
    } else {
        let e = scale * p.last().rssi - slope * p.last().tx_power_db - offset;
        squared_error(p.drop_last(), scale, slope, offset) + e * e
    }
}

proof fn residual_sums_in_terms_of_moments(p: Seq<SweepPoint>, line: Line)
    ensures
        ({
            let (n, d, m) = (line.n as int, line.denom as int, line.numer as int);
            let c = d * line.sum_rssi - m * line.sum_power;
            &&& residual_sum(p, line) == n * d * sum_rssi(p) - n * m * sum_power(p) - p.len() * c
            &&& weighted_residual_sum(p, line) == n * d * sum_product(p) - n * m * sum_square(p) - c
                * sum_power(p)
        }),
    decreases p.len(),
{
    let (n, d, m) = (line.n as int, line.denom as int, line.numer as int);
    let c = d * line.sum_rssi - m * line.sum_power;
    let (k, l) = (n * d, n * m);
    if p.len() > 0 {
        let q = p.drop_last();
        let (x, y) = (p.last().tx_power_db as int, p.last().rssi as int);
        residual_sums_in_terms_of_moments(q, line);
        assert(k * (sum_rssi(q) + y) == k * sum_rssi(q) + k * y) by (nonlinear_arith);
        assert(l * (sum_power(q) + x) == l * sum_power(q) + l * x) by (nonlinear_arith);
        assert((q.len() + 1) * c == q.len() * c + c) by (nonlinear_arith);
        assert(k * (sum_product(q) + x * y) == k * sum_product(q) + k * (x * y))
            by (nonlinear_arith);
        assert(l * (sum_square(q) + x * x) == l * sum_square(q) + l * (x * x)) by (nonlinear_arith);
        assert(c * (sum_power(q) + x) == c * sum_power(q) + c * x) by (nonlinear_arith);
        assert(x * (k * y - l * x - c) == k * (x * y) - l * (x * x) - c * x) by (nonlinear_arith);
    } else {
        assert(k * 0 == 0 && l * 0 == 0 && 0 * c == 0 && c * 0 == 0) by (nonlinear_arith);
    }
}

/// The fitted line balances the sweep: what the points lie above and below it
/// cancels, also with each point weighted by its transmit power.
pub proof fn fitted_line_balances_the_sweep(p: Seq<SweepPoint>, line: Line)
    requires
        line.numer == covariation(p),
        line.denom == spread(p),
        line.sum_power == sum_power(p),
        line.sum_rssi == sum_rssi(p),
        line.n == p.len(),
    ensures
        residual_sum(p, line) == 0,
        weighted_residual_sum(p, line) == 0,
{
    residual_sums_in_terms_of_moments(p, line);
    let (n, d, m) = (line.n as int, line.denom as int, line.numer as int);
    let (sx, sy, sxx, sxy) = (sum_power(p), sum_rssi(p), sum_square(p), sum_product(p));
    assert(n * d * sy - n * m * sx - n * (d * sy - m * sx) == 0) by (nonlinear_arith);
    assert(n * d * sxy == d * (n * sxy)) by (nonlinear_arith);
    assert(n * m * sxx == m * (n * sxx)) by (nonlinear_arith);
    assert((d * sy - m * sx) * sx == d * (sx * sy) - m * (sx * sx)) by (nonlinear_arith);
    assert(d * (n * sxy) - d * (sx * sy) == d * (n * sxy - sx * sy)) by (nonlinear_arith);
    assert(m * (n * sxx) - m * (sx * sx) == m * (n * sxx - sx * sx)) by (nonlinear_arith);
    assert(d * m == m * d) by (nonlinear_arith);
}

proof fn error_splits(
    p: Seq<SweepPoint>,
    line: Line,
    slope: int,
    offset: int,
) -> (extra: int)
    ensures
        extra >= 0,
        ({
            let (n, d, m) = (line.n as int, line.denom as int, line.numer as int);
            let c = d * line.sum_rssi - m * line.sum_power;
            squared_error(p, n * d, slope, offset) == squared_error(p, n * d, n * m, c) + extra + 2
                * ((n * m - slope) * weighted_residual_sum(p, line) + (c - offset) * residual_sum(
                p,
                line,
            ))
        }),
    decreases p.len(),
{
    let (n, d, m) = (line.n as int, line.denom as int, line.numer as int);
    let c = d * line.sum_rssi - m * line.sum_power;
    let (k, l) = (n * d, n * m);
    let (u, v) = (l - slope, c - offset);
    if p.len() > 0 {
        let q = p.drop_last();
        let extra0 = error_splits(q, line, slope, offset);
        let (x, y) = (p.last().tx_power_db as int, p.last().rssi as int);
        let e = k * y - l * x - c;
        let g = u * x + v;
        assert(k * y - slope * x - offset == e + g) by (nonlinear_arith)
            requires
                e == k * y - l * x - c,
                g == u * x + v,
                u == l - slope,
                v == c - offset,
        ;
        assert((e + g) * (e + g) == e * e + g * g + 2 * (u * (x * e) + v * e)) by (nonlinear_arith)
            requires
                g == u * x + v,
        ;
        let (w0, r0) = (weighted_residual_sum(q, line), residual_sum(q, line));
        assert(u * (w0 + x * e) == u * w0 + u * (x * e)) by (nonlinear_arith);
        assert(v * (r0 + e) == v * r0 + v * e) by (nonlinear_arith);
        assert(g * g >= 0) by (nonlinear_arith);
        extra0 + g * g
    } else {
        assert(u * 0 == 0 && v * 0 == 0) by (nonlinear_arith);
        0
    }
}

/// No line fits a sweep better in the sense of least squares: whatever slope
/// and offset are tried, in units of `n * denom`, the squared error of the
/// fitted line is not exceeded from below.
pub proof fn fitted_line_has_the_least_squared_error(
    p: Seq<SweepPoint>,
    line: Line,
    slope: int,
    offset: int,
)
    requires
        line.numer == covariation(p),
        line.denom == spread(p),
        line.sum_power == sum_power(p),
        line.sum_rssi == sum_rssi(p),
        line.n == p.len(),
    ensures
        squared_error(
            p,
            line.n * line.denom,
            line.n * line.numer,
            line.denom * line.sum_rssi - line.numer * line.sum_power,
        ) <= squared_error(p, line.n * line.denom, slope, offset),
{
    fitted_line_balances_the_sweep(p, line);
    let _ = error_splits(p, line, slope, offset);
    let (n, m) = (line.n as int, line.numer as int);
    let c = line.denom * line.sum_rssi - line.numer * line.sum_power;
    assert((n * m - slope) * 0 == 0 && (c - offset) * 0 == 0) by (nonlinear_arith);
}

proof fn moments_on_a_line(p: Seq<SweepPoint>, a: int, b: int)
    requires
        forall|i: int| 0 <= i < p.len() ==> (#[trigger] p[i]).rssi == a * p[i].tx_power_db + b,
    ensures
        sum_rssi(p) == a * sum_power(p) + p.len() * b,
        sum_product(p) == a * sum_square(p) + b * sum_power(p),
    decreases p.len(),
{
    if p.len() > 0 {
        let q = p.drop_last();
        assert forall|i: int| 0 <= i < q.len() implies (#[trigger] q[i]).rssi == a
            * q[i].tx_power_db + b by {
            assert(q[i] == p[i]);
        }
        moments_on_a_line(q, a, b);
        let (x, y) = (p.last().tx_power_db as int, p.last().rssi as int);
        assert(p[p.len() - 1].rssi == a * x + b);
        assert(a * (sum_power(q) + x) == a * sum_power(q) + a * x) by (nonlinear_arith);
        assert((q.len() + 1) * b == q.len() * b + b) by (nonlinear_arith);
        assert(x * y == a * (x * x) + b * x) by (nonlinear_arith)
            requires
                y == a * x + b,
        ;
        assert(a * (sum_square(q) + x * x) == a * sum_square(q) + a * (x * x)) by (nonlinear_arith);
        assert(b * (sum_power(q) + x) == b * sum_power(q) + b * x) by (nonlinear_arith);
    } else {
        assert(a * 0 == 0 && b * 0 == 0 && 0 * b == 0) by (nonlinear_arith);
    }
}

/// A sweep that lies on a line gives back that line: points with
/// `rssi == a * tx_power_db + b` have slope `a` and intercept `b`.
pub proof fn points_on_a_line_give_that_line(p: Seq<SweepPoint>, a: int, b: int)
    requires
        forall|i: int| 0 <= i < p.len() ==> (#[trigger] p[i]).rssi == a * p[i].tx_power_db + b,
    ensures
        covariation(p) == a * spread(p),
        sum_rssi(p) - a * sum_power(p) == p.len() * b,
{
    moments_on_a_line(p, a, b);
    let (n, sx, sxx) = (p.len() as int, sum_power(p), sum_square(p));
    assert(n * (a * sxx + b * sx) - sx * (a * sx + n * b) == a * (n * sxx - sx * sx))
        by (nonlinear_arith);
}

proof fn bounded_product(x: int, y: int)
    by (nonlinear_arith)
    requires
        -0x8000_0000_0000 <= x <= 0x8000_0000_0000,
        -0x4000_0000_0000_0000 <= y <= 0x4000_0000_0000_0000,
    ensures
        -0x2000_0000_0000_0000_0000_0000_0000 <= x * y <= 0x2000_0000_0000_0000_0000_0000_0000,
{
}

/// Fits a line to a sweep. There is none for fewer than two points, nor for
/// points of one single power.
pub fn fit_line(points: &[SweepPoint]) -> (r: Option<Line>)
    requires
        points@.len() <= u32::MAX,
    ensures
        match r {
            Some(line) => {
                &&& points@.len() >= 2
                &&& spread(points@) != 0
                &&& line.numer == covariation(points@)
                &&& line.denom == spread(points@)
                &&& line.sum_power == sum_power(points@)
                &&& line.sum_rssi == sum_rssi(points@)
                &&& line.n == points@.len()
            },
            None => points@.len() < 2 || spread(points@) == 0,
        },
        r is None <==> forall|i: int, j: int|
            0 <= i < points@.len() && 0 <= j < points@.len() ==> (#[trigger] points@[i]).tx_power_db
                == (#[trigger] points@[j]).tx_power_db,
        r matches Some(line) ==> {
            &&& line.denom > 0
            &&& residual_sum(points@, line) == 0
            &&& weighted_residual_sum(points@, line) == 0
        },
{
    proof {
        spread_vanishes_at_one_power(points@);
        if points@.len() == 1 {
            assert forall|i: int, j: int|
                0 <= i < points@.len() && 0 <= j < points@.len() implies (
            #[trigger] points@[i]).tx_power_db == (#[trigger] points@[j]).tx_power_db by {}
        }
    }
    let n: usize = points.len();
    if n < 2 {
        return None;
    }
    let mut sx: i64 = 0;
    let mut sy: i64 = 0;
    let mut sxx: i64 = 0;
    let mut sxy: i64 = 0;
    let mut i: usize = 0;
    while i < n
        invariant
            n == points@.len() <= u32::MAX,
            i <= n,
            sx == sum_power(points@.subrange(0, i as int)),
            sy == sum_rssi(points@.subrange(0, i as int)),
            sxx == sum_square(points@.subrange(0, i as int)),
            sxy == sum_product(points@.subrange(0, i as int)),
            -32768 * i <= sx <= 32768 * i,
            -32768 * i <= sy <= 32768 * i,
            0 <= sxx <= 0x4000_0000 * i,
            -0x4000_0000 * i <= sxy <= 0x4000_0000 * i,
        decreases n - i,
    {
        let x: i64 = points[i].tx_power_db as i64;
        let y: i64 = points[i].rssi as i64;
        assert(0 <= x * x <= 0x4000_0000 && -0x4000_0000 <= x * y <= 0x4000_0000)
            by (nonlinear_arith)
            requires
                -32768 <= x <= 32767,
                -32768 <= y <= 32767,
        ;
        sx = sx + x;
        sy = sy + y;
        sxx = sxx + x * x;
        sxy = sxy + x * y;
        i += 1;
        assert(points@.subrange(0, i as int).drop_last() =~= points@.subrange(0, i - 1));
    }
    assert(points@.subrange(0, n as int) =~= points@);
    let m: i128 = n as i128;
    let (a, b, c, d): (i128, i128, i128, i128) = (sx as i128, sy as i128, sxx as i128, sxy as i128);
    proof {
        bounded_product(m as int, c as int);
        bounded_product(m as int, d as int);
        bounded_product(a as int, a as int);
        bounded_product(a as int, b as int);
    }
    let denom: i128 = m * c - a * a;
    if denom == 0 {
        return None;
    }
    proof {
        let numer = (m * d - a * b) as i128;
        fitted_line_balances_the_sweep(
            points@,
            Line { numer, denom, sum_power: sx, sum_rssi: sy, n: n as u32 },
        );
    }
    Some(Line { numer: m * d - a * b, denom, sum_power: sx, sum_rssi: sy, n: n as u32 })
}

/// Linear model of received over transmitted power.
#[derive(Clone, Copy, Debug, PartialEq, Eq, Structural)]
pub struct TxPowerModel {
    /// dB per dB, about 1 for a well-behaved radio.
    pub slope: F32Bits,
    /// RSSI at 0 dBm.
    pub intercept: F32Bits,
    /// Goodness of fit (0..1).
    pub r2: F32Bits,
    pub n_points: u8,
}

/// The stored form of a power model.
pub open spec fn power_model_bytes(m: TxPowerModel) -> Seq<u8> {
    u32_bytes(m.slope) + u32_bytes(m.intercept) + u32_bytes(m.r2) + seq![m.n_points]
}

/// What a stored blob decodes to: the zero model when it is too short.
pub open spec fn power_model_of(b: Seq<u8>) -> TxPowerModel {
    if b.len() < 13 {
        TxPowerModel { slope: 0, intercept: 0, r2: 0, n_points: 0 }
    } else {
        TxPowerModel {
            slope: u32_at(b, 0),
            intercept: u32_at(b, 4),
            r2: u32_at(b, 8),
            n_points: b[12],
        }
    }
}

/// Where a stored power model holds its values.
pub proof fn power_model_layout(m: TxPowerModel)
    ensures
        u32_at(power_model_bytes(m), 0) == m.slope,
        u32_at(power_model_bytes(m), 4) == m.intercept,
        u32_at(power_model_bytes(m), 8) == m.r2,
        power_model_bytes(m)[12] == m.n_points,
{
    power_model_round_trip(m, Seq::empty());
    assert(power_model_bytes(m) + Seq::empty() =~= power_model_bytes(m));
}

/// A stored power model is read back unchanged, whatever bytes follow it.
pub proof fn power_model_round_trip(m: TxPowerModel, rest: Seq<u8>)
    ensures
        power_model_bytes(m).len() == 13,
        power_model_of(power_model_bytes(m) + rest) == m,
{
    let b = power_model_bytes(m) + rest;
    assert(b.subrange(0, 4) =~= u32_bytes(m.slope));
    assert(b.subrange(4, 8) =~= u32_bytes(m.intercept));
    assert(b.subrange(8, 12) =~= u32_bytes(m.r2));
    u32_round_trip(b, 0, m.slope);
    u32_round_trip(b, 4, m.intercept);
    u32_round_trip(b, 8, m.r2);
    assert(b[12] == m.n_points);
}

impl Default for TxPowerModel {
    fn default() -> (m: Self)
        ensures
            m == (TxPowerModel { slope: 0, intercept: 0, r2: 0, n_points: 0 }),
    {
        TxPowerModel { slope: 0, intercept: 0, r2: 0, n_points: 0 }
    }
}

impl TxPowerModel {
    /// Stored size.
    pub const SERIALIZED_LEN: usize = 13;

    /// Encodes for storage.
    pub fn to_bytes(&self) -> (out: [u8; 13])
        ensures
            out@ == power_model_bytes(*self),
    {
        let mut v: Vec<u8> = Vec::new();
        put_u32(&mut v, self.slope);
        put_u32(&mut v, self.intercept);
        put_u32(&mut v, self.r2);
        v.push(self.n_points);
        assert(v@ =~= power_model_bytes(*self));
        let mut out = [0u8; 13];
        write_at(&mut out, 0, v.as_slice());
        assert(out@ =~= power_model_bytes(*self));
        out
    }

    /// Decodes a stored blob.
    pub fn from_bytes(b: &[u8]) -> (m: Self)
        ensures
            m == power_model_of(b@),
    {
        if b.len() < 13 {
            return TxPowerModel::default();
        }
        TxPowerModel {
            slope: get_u32(b, 0),
            intercept: get_u32(b, 4),
            r2: get_u32(b, 8),
            n_points: b[12],
        }
    }
}

/// Classifier thresholds, calibrated or factory-set.
#[derive(Clone, Copy, Debug, PartialEq, Eq, Structural)]
pub struct ClassThresholds {
    pub empty_thresh: F32Bits,
    pub move_thresh: F32Bits,
    pub strong_thresh: F32Bits,
    pub static_thresh: F32Bits,
    pub hold_frames: u32,
    pub source: ThresholdSource,
}

/// The factory thresholds.
pub open spec fn default_thresholds() -> ClassThresholds {
    ClassThresholds {
        empty_thresh: DEFAULT_EMPTY,
        move_thresh: DEFAULT_MOVE,
        strong_thresh: DEFAULT_STRONG,
        static_thresh: DEFAULT_STATIC,
        hold_frames: DEFAULT_HOLD_FRAMES,
        source: ThresholdSource::Default,
    }
}

/// The factory thresholds are those that the classifier starts with.
pub proof fn factory_thresholds_are_the_classifiers()
    ensures
        ({
            let (t, p) = (default_thresholds(), crate::features::default_params());
            &&& t.empty_thresh == p.empty_thresh && t.move_thresh == p.move_thresh
            &&& t.strong_thresh == p.strong_thresh && t.static_thresh == p.static_thresh
            &&& t.hold_frames == p.hold_frames
            &&& t.source == ThresholdSource::Default
        }),
{
}

/// The stored form of thresholds.
pub open spec fn thresholds_bytes(t: ClassThresholds) -> Seq<u8> {
    u32_bytes(t.empty_thresh) + u32_bytes(t.move_thresh) + u32_bytes(t.strong_thresh) + u32_bytes(
        t.static_thresh,
    ) + u32_bytes(t.hold_frames) + seq![
        match t.source {
            ThresholdSource::Default => 0u8,
            ThresholdSource::Calibrated => 1u8,
        },
    ]
}

/// What a stored blob decodes to: the factory thresholds when it is too short.
pub open spec fn thresholds_of(b: Seq<u8>) -> ClassThresholds {
    if b.len() < 21 {
        default_thresholds()
    } else {
        ClassThresholds {
            empty_thresh: u32_at(b, 0),
            move_thresh: u32_at(b, 4),
            strong_thresh: u32_at(b, 8),
            static_thresh: u32_at(b, 12),
            hold_frames: u32_at(b, 16),
            source: if b[20] == 1 {
                ThresholdSource::Calibrated
            } else {
                ThresholdSource::Default
            },
        }
    }
}

/// Where stored thresholds hold their values.
pub proof fn thresholds_layout(t: ClassThresholds)
    ensures
        u32_at(thresholds_bytes(t), 0) == t.empty_thresh,
        u32_at(thresholds_bytes(t), 4) == t.move_thresh,
        u32_at(thresholds_bytes(t), 8) == t.strong_thresh,
        u32_at(thresholds_bytes(t), 12) == t.static_thresh,
        u32_at(thresholds_bytes(t), 16) == t.hold_frames,
        (thresholds_bytes(t)[20] == 1) == (t.source == ThresholdSource::Calibrated),
{
    thresholds_round_trip(t, Seq::empty());
    assert(thresholds_bytes(t) + Seq::empty() =~= thresholds_bytes(t));
}

/// Stored thresholds are read back unchanged, whatever bytes follow them.
pub proof fn thresholds_round_trip(t: ClassThresholds, rest: Seq<u8>)
    ensures
        thresholds_bytes(t).len() == 21,
        thresholds_of(thresholds_bytes(t) + rest) == t,
{
    let b = thresholds_bytes(t) + rest;
    assert(b.subrange(0, 4) =~= u32_bytes(t.empty_thresh));
    assert(b.subrange(4, 8) =~= u32_bytes(t.move_thresh));
    assert(b.subrange(8, 12) =~= u32_bytes(t.strong_thresh));
    assert(b.subrange(12, 16) =~= u32_bytes(t.static_thresh));
    assert(b.subrange(16, 20) =~= u32_bytes(t.hold_frames));
    u32_round_trip(b, 0, t.empty_thresh);
    u32_round_trip(b, 4, t.move_thresh);
    u32_round_trip(b, 8, t.strong_thresh);
    u32_round_trip(b, 12, t.static_thresh);
    u32_round_trip(b, 16, t.hold_frames);
}

impl Default for ClassThresholds {
    fn default() -> (t: Self)
        ensures
            t == default_thresholds(),
    {
        ClassThresholds {
            empty_thresh: DEFAULT_EMPTY,
            move_thresh: DEFAULT_MOVE,
            strong_thresh: DEFAULT_STRONG,
            static_thresh: DEFAULT_STATIC,
            hold_frames: DEFAULT_HOLD_FRAMES,
            source: ThresholdSource::Default,
        }
    }
}

impl ClassThresholds {
    /// Stored size.
    pub const SERIALIZED_LEN: usize = 21;

    /// The classifier's parameters.
    pub fn to_params(&self) -> (p: ClassifierParams)
        ensures
            p == (ClassifierParams {
                move_thresh: self.move_thresh,
                strong_thresh: self.strong_thresh,
                static_thresh: self.static_thresh,
                empty_thresh: self.empty_thresh,
                corr_weight: DEFAULT_CORR_WEIGHT,
                hold_frames: self.hold_frames,
            }),
            p.empty_thresh == self.empty_thresh,
            p.move_thresh == self.move_thresh,
            p.strong_thresh == self.strong_thresh,
            p.static_thresh == self.static_thresh,
            p.hold_frames == self.hold_frames,
    {
        ClassifierParams {
            move_thresh: self.move_thresh,
            strong_thresh: self.strong_thresh,
            static_thresh: self.static_thresh,
            empty_thresh: self.empty_thresh,
            corr_weight: DEFAULT_CORR_WEIGHT,
            hold_frames: self.hold_frames,
        }
    }

    /// Encodes for storage.
    pub fn to_bytes(&self) -> (out: [u8; 21])
        ensures
            out@ == thresholds_bytes(*self),
    {
        let mut v: Vec<u8> = Vec::new();
        put_u32(&mut v, self.empty_thresh);
        put_u32(&mut v, self.move_thresh);
        put_u32(&mut v, self.strong_thresh);
        put_u32(&mut v, self.static_thresh);
        put_u32(&mut v, self.hold_frames);
        v.push(
            match self.source {
                ThresholdSource::Default => 0,
                ThresholdSource::Calibrated => 1,
            },
        );
        assert(v@ =~= thresholds_bytes(*self));
        let mut out = [0u8; 21];
        write_at(&mut out, 0, v.as_slice());
        assert(out@ =~= thresholds_bytes(*self));
        out
    }

    /// Decodes a stored blob.
    pub fn from_bytes(b: &[u8]) -> (t: Self)
        ensures
            t == thresholds_of(b@),
    {
        if b.len() < 21 {
            return ClassThresholds::default();
        }
        ClassThresholds {
            empty_thresh: get_u32(b, 0),
            move_thresh: get_u32(b, 4),
            strong_thresh: get_u32(b, 8),
            static_thresh: get_u32(b, 12),
            hold_frames: get_u32(b, 16),
            source: if b[20] == 1 {
                ThresholdSource::Calibrated
            } else {
                ThresholdSource::Default
            },
        }
    }
}

} // verus!

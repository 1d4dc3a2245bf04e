//! The window of frames behind one feature report.

use vstd::prelude::*;

use crate::arith::{
    low_byte, low_i8, mean, mean_is_within, seq_ahead_of, seq_distance, signed_mean, unsigned_mean,
};
use crate::protocol::{report_flags, FeatureReport};
use crate::receiver::metrics::{csi_quality, quality_of, snr_db, FrameStats};
use crate::wire::F32Bits;

verus! {

/// Sums over the frames since the last report.
#[derive(Clone, Copy, Debug, PartialEq, Eq, Structural)]
pub struct ReportWindow {
    pub n: u32,
    pub rssi_sum: i64,
    pub snr_sum: i64,
    pub quality_sum: u64,
    pub sat_sum: u64,
    pub dyn_sum: u64,
}

/// A window without frames.
pub open spec fn blank_window() -> ReportWindow {
    ReportWindow { n: 0, rssi_sum: 0, snr_sum: 0, quality_sum: 0, sat_sum: 0, dyn_sum: 0 }
}

/// A window after one more frame.
pub open spec fn widened(w: ReportWindow, f: FrameStats) -> ReportWindow {
    ReportWindow {
        n: (w.n + 1) as u32,
        rssi_sum: (w.rssi_sum + f.rssi) as i64,
        snr_sum: (w.snr_sum + f.snr()) as i64,
        quality_sum: (w.quality_sum + quality_of(f.snr())) as u64,
        sat_sum: (w.sat_sum + f.sat) as u64,
        dyn_sum: (w.dyn_sum + f.dyn_range) as u64,
    }
}

/// The real-valued features of a window.
#[derive(Clone, Copy, Debug)]
pub struct ReportReals {
    pub amp_mean: F32Bits,
    pub amp_std: F32Bits,
    pub motion_energy: F32Bits,
    pub spectral_entropy: F32Bits,
    pub dominant_freq_hz: F32Bits,
    pub phase_dispersion: F32Bits,
    pub baseline_dev: F32Bits,
    pub pca_scores: [F32Bits; 8],
}

/// Frames the transmitter sent in the window beyond those that were heard.
pub open spec fn missing(last_tx_seq: u32, win_start_seq: u32, n: u32) -> u32 {
    let sent = seq_distance(win_start_seq, last_tx_seq);
    if sent >= n {
        (sent - n) as u32
    } else {
        0
    }
}

/// What is missing of a window are the frames sent but not heard; hearing more
/// than were sent means that none is.
pub proof fn missing_frames_were_sent(last_tx_seq: u32, win_start_seq: u32, n: u32, sent: u32)
    requires
        (win_start_seq + sent) % 0x1_0000_0000 == last_tx_seq,
    ensures
        sent >= n ==> missing(last_tx_seq, win_start_seq, n) == sent - n,
        sent < n ==> missing(last_tx_seq, win_start_seq, n) == 0,
{
    crate::arith::seq_distance_leads_on(win_start_seq, last_tx_seq);
}

/// The report of a window: means over its frames, cut towards zero.
pub open spec fn window_report(
    w: ReportWindow,
    reals: ReportReals,
    last_tx_seq: u32,
    win_start_seq: u32,
    overflow_delta: u32,
) -> FeatureReport {
    FeatureReport {
        seq: last_tx_seq,
        n_frames: w.n,
        n_missing: missing(last_tx_seq, win_start_seq, w.n),
        rssi: mean(w.rssi_sum as int, w.n as nat) as i16,
        snr: low_byte(mean(w.snr_sum as int, w.n as nat)),
        csi_quality: mean(w.quality_sum as int, w.n as nat) as u8,
        sat_score: mean(w.sat_sum as int, w.n as nat) as u8,
        dyn_range: mean(w.dyn_sum as int, w.n as nat) as u8,
        flags: if overflow_delta > 0 {
            report_flags::OVERFLOW
        } else {
            0
        },
        amp_mean: reals.amp_mean,
        amp_std: reals.amp_std,
        motion_energy: reals.motion_energy,
        spectral_entropy: reals.spectral_entropy,
        dominant_freq_hz: reals.dominant_freq_hz,
        phase_dispersion: reals.phase_dispersion,
        baseline_dev: reals.baseline_dev,
        pca_scores: reals.pca_scores,
    }
}

/// A report accounts for every frame the transmitter sent in its window: they
/// were heard or are reported missing.
pub proof fn report_accounts_for_the_window(
    w: ReportWindow,
    reals: ReportReals,
    last_tx_seq: u32,
    win_start_seq: u32,
    overflow_delta: u32,
)
    requires
        w.n <= seq_distance(win_start_seq, last_tx_seq),
    ensures
        window_report(w, reals, last_tx_seq, win_start_seq, overflow_delta).n_frames
            + window_report(w, reals, last_tx_seq, win_start_seq, overflow_delta).n_missing
            == seq_distance(win_start_seq, last_tx_seq),
{
}

/// The window of the given frames.
pub open spec fn window_of(frames: Seq<FrameStats>) -> ReportWindow
    decreases frames.len(),
{
    if frames.len() == 0 {
        blank_window()
    } else {
        widened(window_of(frames.drop_last()), frames.last())
    }
}

/// Sum of a measure over frames.
pub open spec fn total(frames: Seq<FrameStats>, f: spec_fn(FrameStats) -> int) -> int
    decreases frames.len(),
{
    if frames.len() == 0 {
        0
    } else {
        total(frames.drop_last(), f) + f(frames.last())
    }
}

/// A window holds the number of its frames and the sums of their measures:
/// signal strength, its distance from the noise, quality, saturation and
/// range.
pub proof fn window_holds_the_sums_of_its_frames(frames: Seq<FrameStats>)
    requires
        frames.len() <= u32::MAX,
    ensures
        window_of(frames).wf(),
        window_of(frames).n == frames.len(),
        window_of(frames).rssi_sum == total(frames, |f: FrameStats| f.rssi as int),
        window_of(frames).snr_sum == total(frames, |f: FrameStats| f.rssi - f.noise_floor),
        window_of(frames).quality_sum == total(
            frames,
            |f: FrameStats| quality_of(f.rssi - f.noise_floor) as int,
        ),
        window_of(frames).sat_sum == total(frames, |f: FrameStats| f.sat as int),
        window_of(frames).dyn_sum == total(frames, |f: FrameStats| f.dyn_range as int),
    decreases frames.len(),
{
    if frames.len() > 0 {
        window_holds_the_sums_of_its_frames(frames.drop_last());
    }
}

/// Each value of a report is the mean of that measure over the window's
/// frames, less than one unit off; the count is that of the frames, and the
/// real-valued features are those of the window under their own names.
pub proof fn report_holds_the_means_of_its_frames(
    frames: Seq<FrameStats>,
    reals: ReportReals,
    last_tx_seq: u32,
    win_start_seq: u32,
    overflow_delta: u32,
)
    requires
        0 < frames.len() <= u32::MAX,
    ensures
        ({
            let r = window_report(
                window_of(frames),
                reals,
                last_tx_seq,
                win_start_seq,
                overflow_delta,
            );
            let n = frames.len();
            let rssi = total(frames, |f: FrameStats| f.rssi as int);
            let quality = total(frames, |f: FrameStats| quality_of(f.rssi - f.noise_floor) as int);
            let sat = total(frames, |f: FrameStats| f.sat as int);
            let span = total(frames, |f: FrameStats| f.dyn_range as int);
            &&& r.n_frames == n
            &&& r.seq == last_tx_seq
            &&& (r.flags != 0) == (overflow_delta != 0)
            &&& -n < n * r.rssi - rssi < n
            &&& -n < n * r.csi_quality - quality < n
            &&& -n < n * r.sat_score - sat < n
            &&& -n < n * r.dyn_range - span < n
            &&& named_alike(r, reals)
        }),
{
    window_holds_the_sums_of_its_frames(frames);
    let w = window_of(frames);
    mean_is_within(w.rssi_sum as int, w.n as nat, -32768, 32767);
    mean_is_within(w.quality_sum as int, w.n as nat, 0, 100);
    mean_is_within(w.sat_sum as int, w.n as nat, 0, 255);
    mean_is_within(w.dyn_sum as int, w.n as nat, 0, 255);
    crate::arith::mean_is_near(w.rssi_sum as int, w.n as nat, 0);
    crate::arith::mean_is_near(w.quality_sum as int, w.n as nat, 0);
    crate::arith::mean_is_near(w.sat_sum as int, w.n as nat, 0);
    crate::arith::mean_is_near(w.dyn_sum as int, w.n as nat, 0);
}

proof fn equal_measures_add_up(frames: Seq<FrameStats>, f: spec_fn(FrameStats) -> int, v: int)
    requires
        forall|i: int| 0 <= i < frames.len() ==> f(#[trigger] frames[i]) == v,
    ensures
        total(frames, f) == frames.len() * v,
    decreases frames.len(),
{
    if frames.len() > 0 {
        let q = frames.drop_last();
        assert forall|i: int| 0 <= i < q.len() implies f(#[trigger] q[i]) == v by {
            assert(q[i] == frames[i]);
        }
        equal_measures_add_up(q, f, v);
        assert(f(frames[frames.len() - 1]) == v);
        assert((q.len() + 1) * v == q.len() * v + v) by (nonlinear_arith);
    } else {
        assert(0 * v == 0) by (nonlinear_arith);
    }
}

/// A window of frames that measure alike reports what they measure.
pub proof fn steady_frames_are_reported_as_they_are(
    frames: Seq<FrameStats>,
    f: FrameStats,
    reals: ReportReals,
    last_tx_seq: u32,
    win_start_seq: u32,
    overflow_delta: u32,
)
    requires
        0 < frames.len() <= u32::MAX,
        forall|i: int| 0 <= i < frames.len() ==> #[trigger] frames[i] == f,
        -128 <= f.rssi - f.noise_floor <= 127,
    ensures
        ({
            let r = window_report(
                window_of(frames),
                reals,
                last_tx_seq,
                win_start_seq,
                overflow_delta,
            );
            &&& r.rssi == f.rssi
            &&& r.snr == f.rssi - f.noise_floor
            &&& r.csi_quality == quality_of(f.rssi - f.noise_floor)
            &&& r.sat_score == f.sat
            &&& r.dyn_range == f.dyn_range
        }),
{
    window_holds_the_sums_of_its_frames(frames);
    let w = window_of(frames);
    let n = w.n as nat;
    let snr = f.rssi - f.noise_floor;
    equal_measures_add_up(frames, |f: FrameStats| f.rssi as int, f.rssi as int);
    equal_measures_add_up(frames, |f: FrameStats| f.rssi - f.noise_floor, snr);
    equal_measures_add_up(
        frames,
        |f: FrameStats| quality_of(f.rssi - f.noise_floor) as int,
        quality_of(snr) as int,
    );
    equal_measures_add_up(frames, |f: FrameStats| f.sat as int, f.sat as int);
    equal_measures_add_up(frames, |f: FrameStats| f.dyn_range as int, f.dyn_range as int);
    crate::arith::mean_is_near(w.rssi_sum as int, n, f.rssi as int);
    crate::arith::mean_is_near(w.snr_sum as int, n, snr);
    crate::arith::mean_is_near(w.quality_sum as int, n, quality_of(snr) as int);
    crate::arith::mean_is_near(w.sat_sum as int, n, f.sat as int);
    crate::arith::mean_is_near(w.dyn_sum as int, n, f.dyn_range as int);
    crate::arith::low_byte_keeps_small_values(snr);
}

/// The real-valued features of a report are the given ones, each under its own
/// name.
pub open spec fn named_alike(r: FeatureReport, reals: ReportReals) -> bool {
    &&& r.amp_mean == reals.amp_mean
    &&& r.amp_std == reals.amp_std
    &&& r.motion_energy == reals.motion_energy
    &&& r.spectral_entropy == reals.spectral_entropy
    &&& r.dominant_freq_hz == reals.dominant_freq_hz
    &&& r.phase_dispersion == reals.phase_dispersion
    &&& r.baseline_dev == reals.baseline_dev
    &&& r.pca_scores == reals.pca_scores
}

impl ReportWindow {
    /// The sums are those of as many frames as were counted.
    pub open spec fn wf(self) -> bool {
        &&& -32768 * self.n <= self.rssi_sum <= 32767 * self.n
        &&& -65535 * self.n <= self.snr_sum <= 65535 * self.n
        &&& self.quality_sum <= 100 * self.n
        &&& self.sat_sum <= 255 * self.n
        &&& self.dyn_sum <= 255 * self.n
    }

    /// A window without frames.
    pub fn new() -> (w: Self)
        ensures
            w == blank_window(),
            w.wf(),
    {
        ReportWindow { n: 0, rssi_sum: 0, snr_sum: 0, quality_sum: 0, sat_sum: 0, dyn_sum: 0 }
    }

    /// Takes one frame.
    pub fn push(&mut self, f: &FrameStats)
        requires
            old(self).wf(),
            old(self).n < u32::MAX,
        ensures
            *final(self) == widened(*old(self), *f),
            final(self).wf(),
    {
        let snr: i32 = snr_db(f.rssi, f.noise_floor);
        self.n = self.n + 1;
        self.rssi_sum = self.rssi_sum + f.rssi as i64;
        self.snr_sum = self.snr_sum + snr as i64;
        self.quality_sum = self.quality_sum + csi_quality(snr) as u64;
        self.sat_sum = self.sat_sum + f.sat as u64;
        self.dyn_sum = self.dyn_sum + f.dyn_range as u64;
    }

    /// Turns the window into a report.
    pub fn report(
        &self,
        reals: &ReportReals,
        last_tx_seq: u32,
        win_start_seq: u32,
        overflow_delta: u32,
    ) -> (r: FeatureReport)
        requires
            self.wf(),
        ensures
            r == window_report(*self, *reals, last_tx_seq, win_start_seq, overflow_delta),
            r.seq == last_tx_seq,
            r.n_frames == self.n,
            (r.flags != 0) == (overflow_delta != 0),
            r.motion_energy == reals.motion_energy,
            r.amp_std == reals.amp_std,
            r.amp_mean == reals.amp_mean,
            r.spectral_entropy == reals.spectral_entropy,
            r.dominant_freq_hz == reals.dominant_freq_hz,
            r.phase_dispersion == reals.phase_dispersion,
            r.baseline_dev == reals.baseline_dev,
            r.pca_scores == reals.pca_scores,
    {
        proof {
            mean_is_within(self.rssi_sum as int, self.n as nat, -32768, 32767);
            mean_is_within(self.snr_sum as int, self.n as nat, -65535, 65535);
            mean_is_within(self.quality_sum as int, self.n as nat, 0, 100);
            mean_is_within(self.sat_sum as int, self.n as nat, 0, 255);
            mean_is_within(self.dyn_sum as int, self.n as nat, 0, 255);
        }
        let sent: u32 = seq_ahead_of(win_start_seq, last_tx_seq);
        FeatureReport {
            seq: last_tx_seq,
            n_frames: self.n,
            n_missing: if sent >= self.n {
                sent - self.n
            } else {
                0
            },
            rssi: signed_mean(self.rssi_sum, self.n) as i16,
            snr: low_i8(signed_mean(self.snr_sum, self.n)),
            csi_quality: unsigned_mean(self.quality_sum, self.n) as u8,
            sat_score: unsigned_mean(self.sat_sum, self.n) as u8,
            dyn_range: unsigned_mean(self.dyn_sum, self.n) as u8,
            flags: if overflow_delta > 0 {
                report_flags::OVERFLOW
            } else {
                0
            },
            amp_mean: reals.amp_mean,
            amp_std: reals.amp_std,
            motion_energy: reals.motion_energy,
            spectral_entropy: reals.spectral_entropy,
            dominant_freq_hz: reals.dominant_freq_hz,
            phase_dispersion: reals.phase_dispersion,
            baseline_dev: reals.baseline_dev,
            pca_scores: reals.pca_scores,
        }
    }

    /// Empties the window.
    pub fn reset(&mut self)
        ensures
            *final(self) == blank_window(),
            final(self).wf(),
    {
        *self = ReportWindow::new();
    }
}

impl Default for ReportWindow {
    fn default() -> (w: Self)
        ensures
            w == blank_window(),
            w.wf(),
    {
        ReportWindow::new()
    }
}

} // verus!

//! Calibration collection on command of the transmitter.
//!
//! A command arms a collection with a deadline; every frame heard until then
//! is counted; once the deadline has passed the collection is turned into one
//! response.

use vstd::prelude::*;

use crate::arith::{low_byte, low_i8, mean, mean_is_within, signed_mean, unsigned_mean};
use crate::calibration::{rounded_mean, BaselineCollector, BaselineStats, MIN_BASELINE_SAMPLES};
use crate::protocol::payloads::blank_resp;
use crate::protocol::{cal_action, cal_result, cal_stage, CalCmd, CalResp};
use crate::receiver::metrics::{csi_quality, quality_of, snr_db, FrameStats};
use crate::receiver::window::total;
use crate::wire::F32Bits;

verus! {

/// Mean saturation from which a sweep point answers that it is saturated.
pub const SAT_THRESHOLD: u8 = 70;

/// Sums over the frames of a collection, and the worst saturation among them.
#[derive(Clone, Copy, Debug, PartialEq, Eq, Structural)]
pub struct LinkAccum {
    pub n: u32,
    pub rssi_sum: i64,
    pub snr_sum: i64,
    pub sat_sum: u64,
    pub sat_max: u8,
    pub quality_sum: u64,
    pub dyn_sum: u64,
    pub noise_sum: i64,
}

/// A collection without frames.
pub open spec fn blank_accum() -> LinkAccum {
    LinkAccum {
        n: 0,
        rssi_sum: 0,
        snr_sum: 0,
        sat_sum: 0,
        sat_max: 0,
        quality_sum: 0,
        dyn_sum: 0,
        noise_sum: 0,
    }
}

/// A collection after one more frame; an invalid one does not count.
pub open spec fn accumulated(a: LinkAccum, f: FrameStats) -> LinkAccum {
    if !f.valid {
        a
    } else {
        LinkAccum {
            n: (a.n + 1) as u32,
            rssi_sum: (a.rssi_sum + f.rssi) as i64,
            snr_sum: (a.snr_sum + f.snr()) as i64,
            sat_sum: (a.sat_sum + f.sat) as u64,
            sat_max: if f.sat > a.sat_max {
                f.sat
            } else {
                a.sat_max
            },
            quality_sum: (a.quality_sum + quality_of(f.snr())) as u64,
            dyn_sum: (a.dyn_sum + f.dyn_range) as u64,
            noise_sum: (a.noise_sum + f.noise_floor) as i64,
        }
    }
}

/// The response of a collection: means over its frames, cut towards zero, and
/// the worst saturation.
pub open spec fn accum_resp(a: LinkAccum, stage: u8, result: u8, noise_floor: F32Bits) -> CalResp {
    CalResp {
        stage,
        result,
        rssi: mean(a.rssi_sum as int, a.n as nat) as i16,
        snr: low_byte(mean(a.snr_sum as int, a.n as nat)),
        csi_quality: mean(a.quality_sum as int, a.n as nat) as u8,
        sat_score: a.sat_max,
        dyn_range: mean(a.dyn_sum as int, a.n as nat) as u8,
        reserved: 0,
        noise_floor,
        n_samples: a.n,
    }
}

impl LinkAccum {
    /// The sums are those of as many frames as were counted.
    pub open spec fn wf(self) -> bool {
        &&& -32768 * self.n <= self.rssi_sum <= 32767 * self.n
        &&& -32768 * self.n <= self.noise_sum <= 32767 * self.n
        &&& -65535 * self.n <= self.snr_sum <= 65535 * self.n
        &&& self.sat_sum <= 255 * self.n
        &&& self.quality_sum <= 100 * self.n
        &&& self.dyn_sum <= 255 * self.n
        &&& self.n == 0 ==> self.sat_max == 0
    }

    /// A collection without frames.
    pub fn new() -> (a: Self)
        ensures
            a == blank_accum(),
            a.wf(),
    {
        LinkAccum {
            n: 0,
            rssi_sum: 0,
            snr_sum: 0,
            sat_sum: 0,
            sat_max: 0,
            quality_sum: 0,
            dyn_sum: 0,
            noise_sum: 0,
        }
    }

    /// Takes one frame.
    pub fn push(&mut self, f: &FrameStats)
        requires
            old(self).wf(),
            old(self).n < u32::MAX,
        ensures
            *final(self) == accumulated(*old(self), *f),
            final(self).wf(),
    {
        if !f.valid {
            return;
        }
        let snr: i32 = snr_db(f.rssi, f.noise_floor);
        self.n = self.n + 1;
        self.rssi_sum = self.rssi_sum + f.rssi as i64;
        self.noise_sum = self.noise_sum + f.noise_floor as i64;
        self.snr_sum = self.snr_sum + snr as i64;
        self.sat_sum = self.sat_sum + f.sat as u64;
        if f.sat > self.sat_max {
            self.sat_max = f.sat;
        }
        self.quality_sum = self.quality_sum + csi_quality(snr) as u64;
        self.dyn_sum = self.dyn_sum + f.dyn_range as u64;
    }

    /// The response; `noise_floor` is the mean noise floor.
    pub fn finish(&self, stage: u8, result: u8, noise_floor: F32Bits) -> (r: CalResp)
        requires
            self.wf(),
        ensures
            r == accum_resp(*self, stage, result, noise_floor),
    {
        proof {
            mean_is_within(self.rssi_sum as int, self.n as nat, -32768, 32767);
            mean_is_within(self.snr_sum as int, self.n as nat, -65535, 65535);
            mean_is_within(self.quality_sum as int, self.n as nat, 0, 100);
            mean_is_within(self.dyn_sum as int, self.n as nat, 0, 255);
        }
        CalResp {
            stage,
            result,
            rssi: signed_mean(self.rssi_sum, self.n) as i16,
            snr: low_i8(signed_mean(self.snr_sum, self.n)),
            csi_quality: unsigned_mean(self.quality_sum, self.n) as u8,
            sat_score: self.sat_max,
            dyn_range: unsigned_mean(self.dyn_sum, self.n) as u8,
            reserved: 0,
            noise_floor,
            n_samples: self.n,
        }
    }
}

impl Default for LinkAccum {
    fn default() -> (a: Self)
        ensures
            a == blank_accum(),
            a.wf(),
    {
        LinkAccum::new()
    }
}

/// A calibration collection and when it ends.
#[derive(Debug)]
pub enum CalCollect {
    /// Nothing is being collected.
    Idle,
    /// One point of the power sweep.
    RfPower { end_us: u64, stats: LinkAccum },
    /// The empty-room baseline.
    Baseline { end_us: u64, collector: BaselineCollector },
    /// The moving test.
    Moving { end_us: u64, stats: LinkAccum },
    /// The fingerprint capture.
    Fingerprint { end_us: u64, stats: LinkAccum },
}

/// When a collection ends, if there is one.
pub open spec fn ends_at(c: CalCollect) -> Option<u64> {
    match c {
        CalCollect::Idle => None,
        CalCollect::RfPower { end_us, .. } => Some(end_us),
        CalCollect::Baseline { end_us, .. } => Some(end_us),
        CalCollect::Moving { end_us, .. } => Some(end_us),
        CalCollect::Fingerprint { end_us, .. } => Some(end_us),
    }
}

/// Frames counted by a collection.
pub open spec fn collected(c: CalCollect) -> nat {
    match c {
        CalCollect::Idle => 0,
        CalCollect::RfPower { stats, .. } => stats.n as nat,
        CalCollect::Baseline { collector, .. } => collector.samples(),
        CalCollect::Moving { stats, .. } => stats.n as nat,
        CalCollect::Fingerprint { stats, .. } => stats.n as nat,
    }
}

/// `after` is the collection `before` with one more frame in it.
pub open spec fn fed(before: CalCollect, f: FrameStats, after: CalCollect) -> bool {
    match before {
        CalCollect::Idle => after == before,
        CalCollect::RfPower { end_us, stats } => after == (CalCollect::RfPower {
            end_us,
            stats: accumulated(stats, f),
        }),
        CalCollect::Moving { end_us, stats } => after == (CalCollect::Moving {
            end_us,
            stats: accumulated(stats, f),
        }),
        CalCollect::Fingerprint { end_us, stats } => after == (CalCollect::Fingerprint {
            end_us,
            stats: accumulated(stats, f),
        }),
        CalCollect::Baseline { end_us, collector } => {
            &&& after is Baseline
            &&& after->Baseline_end_us == end_us
            &&& after->collector.samples() == collector.samples() + if f.valid {
                1int
            } else {
                0
            }
            &&& after->collector.rssi_sum() == collector.rssi_sum() + if f.valid {
                f.rssi as int
            } else {
                0
            }
        },
    }
}

/// Feeding a frame keeps the collection and its end, and counts the frame if
/// it is valid; an invalid one changes none of the sums.
pub proof fn feeding_counts_valid_frames(before: CalCollect, f: FrameStats, after: CalCollect)
    requires
        before.wf(),
        collected(before) < u32::MAX,
        fed(before, f, after),
    ensures
        ends_at(after) == ends_at(before),
        before is Idle <==> after is Idle,
        before is RfPower <==> after is RfPower,
        before is Baseline <==> after is Baseline,
        before is Moving <==> after is Moving,
        before is Fingerprint <==> after is Fingerprint,
        !(before is Idle) && f.valid ==> collected(after) == collected(before) + 1,
        before is Idle || !f.valid ==> collected(after) == collected(before),
        !f.valid && !(before is Baseline) ==> after == before,
{
}

impl CalCollect {
    /// The counts of the collection are consistent.
    pub open spec fn wf(self) -> bool {
        match self {
            CalCollect::Idle => true,
            CalCollect::RfPower { stats, .. } => stats.wf(),
            CalCollect::Baseline { collector, .. } => collector.wf(),
            CalCollect::Moving { stats, .. } => stats.wf(),
            CalCollect::Fingerprint { stats, .. } => stats.wf(),
        }
    }

    /// When the collection ends; never, without one.
    pub fn deadline(&self) -> (t: u64)
        ensures
            t == (match ends_at(*self) {
                Some(end_us) => end_us,
                None => u64::MAX,
            }),
    {
        match self {
            CalCollect::Idle => u64::MAX,
            CalCollect::RfPower { end_us, .. } => *end_us,
            CalCollect::Baseline { end_us, .. } => *end_us,
            CalCollect::Moving { end_us, .. } => *end_us,
            CalCollect::Fingerprint { end_us, .. } => *end_us,
        }
    }

    /// Takes one frame.
    pub fn feed(&mut self, f: &FrameStats)
        requires
            old(self).wf(),
            collected(*old(self)) < u32::MAX,
        ensures
            final(self).wf(),
            fed(*old(self), *f, *final(self)),
    {
        match self {
            CalCollect::Idle => {},
            CalCollect::RfPower { stats, .. } => stats.push(f),
            CalCollect::Baseline { collector, .. } => collector.update(f.valid, f.rssi),
            CalCollect::Moving { stats, .. } => stats.push(f),
            CalCollect::Fingerprint { stats, .. } => stats.push(f),
        }
    }
}

/// When the running collection ends, if there is one.
pub fn active_deadline(cal: &CalCollect) -> (t: Option<u64>)
    ensures
        t == ends_at(*cal),
{
    match cal {
        CalCollect::Idle => None,
        other => Some(other.deadline()),
    }
}

/// The immediate answer to an identity command.
pub open spec fn identity_ack() -> CalResp {
    CalResp { stage: cal_stage::IDENTITY, result: cal_result::OK, ..blank_resp() }
}

/// When a collection commanded at `now_us` ends.
pub open spec fn window_end(cmd: CalCmd, now_us: u64) -> int {
    now_us + cmd.collect_ms * 1000
}

/// `after` is `before` after the command: an abort ends any collection, a
/// timed stage replaces it by a fresh one, and anything else leaves it.
pub open spec fn commanded(before: CalCollect, cmd: CalCmd, now_us: u64, after: CalCollect) -> bool {
    let end_us = window_end(cmd, now_us) as u64;
    if cmd.action == cal_action::ABORT {
        after == CalCollect::Idle
    } else if cmd.stage == cal_stage::RF_POWER {
        after == (CalCollect::RfPower { end_us, stats: blank_accum() })
    } else if cmd.stage == cal_stage::EMPTY_ROOM {
        &&& after is Baseline
        &&& after->Baseline_end_us == end_us
        &&& after->collector.samples() == 0
        &&& after->collector.rssi_sum() == 0
    } else if cmd.stage == cal_stage::MOVING_TEST {
        after == (CalCollect::Moving { end_us, stats: blank_accum() })
    } else if cmd.stage == cal_stage::FINGERPRINT {
        after == (CalCollect::Fingerprint { end_us, stats: blank_accum() })
    } else {
        after == before
    }
}

/// Carries out a command. Only an identity command is answered at once.
pub fn handle_cal_cmd(cal: &mut CalCollect, cmd: &CalCmd, now_us: u64) -> (r: Option<CalResp>)
    requires
        old(cal).wf(),
        cmd.action != cal_action::ABORT ==> window_end(*cmd, now_us) <= u64::MAX,
    ensures
        final(cal).wf(),
        commanded(*old(cal), *cmd, now_us, *final(cal)),
        r == (if cmd.action != cal_action::ABORT && cmd.stage == cal_stage::IDENTITY {
            Some(identity_ack())
        } else {
            None::<CalResp>
        }),
{
    if cmd.action == cal_action::ABORT {
        *cal = CalCollect::Idle;
        return None;
    }
    let end_us: u64 = now_us + cmd.collect_ms as u64 * 1000;
    if cmd.stage == cal_stage::IDENTITY {
        return Some(
            CalResp {
                stage: cal_stage::IDENTITY,
                result: cal_result::OK,
                rssi: 0,
                snr: 0,
                csi_quality: 0,
                sat_score: 0,
                dyn_range: 0,
                reserved: 0,
                noise_floor: 0,
                n_samples: 0,
            },
        );
    }
    if cmd.stage == cal_stage::RF_POWER {
        *cal = CalCollect::RfPower { end_us, stats: LinkAccum::new() };
    } else if cmd.stage == cal_stage::EMPTY_ROOM {
        *cal = CalCollect::Baseline { end_us, collector: BaselineCollector::new() };
    } else if cmd.stage == cal_stage::MOVING_TEST {
        *cal = CalCollect::Moving { end_us, stats: LinkAccum::new() };
    } else if cmd.stage == cal_stage::FINGERPRINT {
        *cal = CalCollect::Fingerprint { end_us, stats: LinkAccum::new() };
    }
    None
}

/// The real-valued statistics of a collection.
#[derive(Clone, Copy, Debug)]
pub struct CollectedReals {
    /// Per-subcarrier amplitude means of a baseline.
    pub mean: [F32Bits; 56],
    /// Per-subcarrier amplitude deviations of a baseline.
    pub std: [F32Bits; 56],
    /// Mean noise floor.
    pub noise_floor: F32Bits,
}

/// What a finished collection leads to.
#[derive(Clone, Copy, Debug)]
pub struct Finalized {
    /// The response to the transmitter.
    pub resp: CalResp,
    /// A valid new baseline: to be stored, and the reference from now on.
    pub baseline: Option<BaselineStats>,
}

/// The result of a sweep point.
pub open spec fn sweep_result(a: LinkAccum) -> u8 {
    if mean(a.sat_sum as int, a.n as nat) >= SAT_THRESHOLD {
        cal_result::SAT
    } else {
        cal_result::OK
    }
}

/// `r` is what the collection `c` leads to when it is finished.
pub open spec fn finalized(c: CalCollect, reals: CollectedReals, r: Option<Finalized>) -> bool {
    match c {
        CalCollect::Idle => r is None,
        CalCollect::RfPower { stats, .. } => r == Some(
            Finalized {
                resp: accum_resp(stats, cal_stage::RF_POWER, sweep_result(stats), reals.noise_floor),
                baseline: None,
            },
        ),
        CalCollect::Moving { stats, .. } => r == Some(
            Finalized {
                resp: accum_resp(stats, cal_stage::MOVING_TEST, cal_result::OK, reals.noise_floor),
                baseline: None,
            },
        ),
        CalCollect::Fingerprint { stats, .. } => r == Some(
            Finalized {
                resp: accum_resp(stats, cal_stage::FINGERPRINT, cal_result::OK, reals.noise_floor),
                baseline: None,
            },
        ),
        CalCollect::Baseline { collector, .. } => {
            let valid = collector.samples() >= MIN_BASELINE_SAMPLES;
            let n: int = if collector.samples() == 0 {
                1
            } else {
                collector.samples() as int
            };
            let rssi = rounded_mean(collector.rssi_sum(), n) as i16;
            &&& r is Some
            &&& r->0.resp == (CalResp {
                stage: cal_stage::EMPTY_ROOM,
                result: if valid {
                    cal_result::OK
                } else {
                    cal_result::ERR
                },
                rssi,
                noise_floor: reals.noise_floor,
                n_samples: collector.samples() as u32,
                ..blank_resp()
            })
            &&& r->0.baseline == (if valid {
                Some(
                    BaselineStats {
                        mean: reals.mean,
                        std: reals.std,
                        n_samples: collector.samples() as u32,
                        rssi_mean: rssi,
                        noise_floor: reals.noise_floor,
                        valid: true,
                    },
                )
            } else {
                None
            })
        },
    }
}

/// Finishes the running collection; nothing is being collected afterwards.
pub fn finalize_cal(cal: &mut CalCollect, reals: &CollectedReals) -> (r: Option<Finalized>)
    requires
        old(cal).wf(),
    ensures
        final(cal).wf(),
        *final(cal) == CalCollect::Idle,
        finalized(*old(cal), *reals, r),
{
    let r = match cal {
        CalCollect::Idle => None,
        CalCollect::RfPower { stats, .. } => {
            let sat: u64 = unsigned_mean(stats.sat_sum, stats.n);
            let result: u8 = if sat >= SAT_THRESHOLD as u64 {
                cal_result::SAT
            } else {
                cal_result::OK
            };
            Some(
                Finalized {
                    resp: stats.finish(cal_stage::RF_POWER, result, reals.noise_floor),
                    baseline: None,
                },
            )
        },
        CalCollect::Moving { stats, .. } => Some(
            Finalized {
                resp: stats.finish(cal_stage::MOVING_TEST, cal_result::OK, reals.noise_floor),
                baseline: None,
            },
        ),
        CalCollect::Fingerprint { stats, .. } => Some(
            Finalized {
                resp: stats.finish(cal_stage::FINGERPRINT, cal_result::OK, reals.noise_floor),
                baseline: None,
            },
        ),
        CalCollect::Baseline { collector, .. } => {
            let b = collector.finish(reals.mean, reals.std, reals.noise_floor);
            let resp = CalResp {
                stage: cal_stage::EMPTY_ROOM,
                result: if b.valid {
                    cal_result::OK
                } else {
                    cal_result::ERR
                },
                rssi: b.rssi_mean,
                snr: 0,
                csi_quality: 0,
                sat_score: 0,
                dyn_range: 0,
                reserved: 0,
                noise_floor: b.noise_floor,
                n_samples: b.n_samples,
            };
            Some(
                Finalized {
                    resp,
                    baseline: if b.valid {
                        Some(b)
                    } else {
                        None
                    },
                },
            )
        },
    };
    *cal = CalCollect::Idle;
    r
}

/// The collection of the given frames.
pub open spec fn accum_of(frames: Seq<FrameStats>) -> LinkAccum
    decreases frames.len(),
{
    if frames.len() == 0 {
        blank_accum()
    } else {
        accumulated(accum_of(frames.drop_last()), frames.last())
    }
}

/// A measure of a frame, if the frame is valid.
pub open spec fn counted(f: FrameStats, v: int) -> int {
    if f.valid {
        v
    } else {
        0
    }
}

/// A collection holds the number of its valid frames, the sums of their
/// measures, and the worst saturation among them.
pub proof fn collection_holds_its_valid_frames(frames: Seq<FrameStats>)
    requires
        frames.len() <= u32::MAX,
    ensures
        ({
            let a = accum_of(frames);
            &&& a.wf()
            &&& a.n == total(frames, |f: FrameStats| counted(f, 1)) <= frames.len()
            &&& a.rssi_sum == total(frames, |f: FrameStats| counted(f, f.rssi as int))
            &&& a.snr_sum == total(frames, |f: FrameStats| counted(f, f.rssi - f.noise_floor))
            &&& a.noise_sum == total(frames, |f: FrameStats| counted(f, f.noise_floor as int))
            &&& a.quality_sum == total(
                frames,
                |f: FrameStats| counted(f, quality_of(f.rssi - f.noise_floor) as int),
            )
            &&& a.sat_sum == total(frames, |f: FrameStats| counted(f, f.sat as int))
            &&& a.dyn_sum == total(frames, |f: FrameStats| counted(f, f.dyn_range as int))
            &&& forall|i: int|
                0 <= i < frames.len() && (#[trigger] frames[i]).valid ==> a.sat_max >= frames[i].sat
            &&& a.sat_max > 0 ==> exists|i: int|
                0 <= i < frames.len() && (#[trigger] frames[i]).valid && a.sat_max == frames[i].sat
        }),
    decreases frames.len(),
{
    if frames.len() > 0 {
        let q = frames.drop_last();
        collection_holds_its_valid_frames(q);
        let (a, b) = (accum_of(frames), accum_of(q));
        assert forall|i: int| 0 <= i < frames.len() && (#[trigger] frames[i]).valid implies a.sat_max
            >= frames[i].sat by {
            if i < q.len() {
                assert(q[i] == frames[i]);
            }
        }
        if a.sat_max > 0 {
            if a.sat_max == b.sat_max {
                let i = choose|i: int|
                    0 <= i < q.len() && (#[trigger] q[i]).valid && b.sat_max == q[i].sat;
                assert(frames[i] == q[i]);
            } else {
                assert(frames[frames.len() - 1].sat == a.sat_max);
            }
        }
    }
}

/// What a collection answers for its frames: how many were valid, the means of
/// their measures, less than one unit off, and the worst saturation. It
/// answers for the stage it was armed for; a sweep point is called saturated
/// exactly when the mean saturation reaches 70, and a moving test and a
/// fingerprint always succeed.
pub proof fn collection_answers_with_means_and_the_worst_saturation(
    frames: Seq<FrameStats>,
    end_us: u64,
    reals: CollectedReals,
    sweep: Option<Finalized>,
    moving: Option<Finalized>,
    print: Option<Finalized>,
)
    requires
        frames.len() <= u32::MAX,
        accum_of(frames).n > 0,
        finalized(CalCollect::RfPower { end_us, stats: accum_of(frames) }, reals, sweep),
        finalized(CalCollect::Moving { end_us, stats: accum_of(frames) }, reals, moving),
        finalized(CalCollect::Fingerprint { end_us, stats: accum_of(frames) }, reals, print),
    ensures
        sweep is Some && moving is Some && print is Some,
        ({
            let n = accum_of(frames).n;
            let rssi = total(frames, |f: FrameStats| counted(f, f.rssi as int));
            let quality = total(
                frames,
                |f: FrameStats| counted(f, quality_of(f.rssi - f.noise_floor) as int),
            );
            let span = total(frames, |f: FrameStats| counted(f, f.dyn_range as int));
            let sat = total(frames, |f: FrameStats| counted(f, f.sat as int));
            let r = sweep->0.resp;
            &&& r.stage == 2 && moving->0.resp.stage == 4 && print->0.resp.stage == 5
            &&& r.n_samples == n
            &&& r.noise_floor == reals.noise_floor
            &&& -n < n * r.rssi - rssi < n
            &&& -n < n * r.csi_quality - quality < n
            &&& -n < n * r.dyn_range - span < n
            &&& r.sat_score == accum_of(frames).sat_max
            &&& (r.result == cal_result::SAT) == (sat >= 70 * n)
            &&& (r.result == cal_result::OK) == (sat < 70 * n)
            &&& moving->0.resp == (CalResp { stage: 4, result: cal_result::OK, ..r })
            &&& print->0.resp == (CalResp { stage: 5, result: cal_result::OK, ..r })
            &&& sweep->0.baseline is None && moving->0.baseline is None && print->0.baseline is None
        }),
{
    collection_holds_its_valid_frames(frames);
    let a = accum_of(frames);
    let n = a.n as nat;
    mean_is_within(a.rssi_sum as int, n, -32768, 32767);
    mean_is_within(a.quality_sum as int, n, 0, 100);
    mean_is_within(a.dyn_sum as int, n, 0, 255);
    crate::arith::mean_is_near(a.rssi_sum as int, n, 0);
    crate::arith::mean_is_near(a.quality_sum as int, n, 0);
    crate::arith::mean_is_near(a.dyn_sum as int, n, 0);
    crate::arith::mean_is_near(a.sat_sum as int, n, 0);
    let (m, s) = (mean(a.sat_sum as int, n), a.sat_sum as int);
    assert((m >= 70) == (s >= 70 * n)) by (nonlinear_arith)
        requires
            0 <= s - n * m < n,
    ;
}

/// What a command arms: an abort ends whatever runs; a timed stage starts
/// afresh, ends after the time it was given, and will answer for that very
/// stage; an identity check or a number of no stage leaves a running
/// collection alone.
pub proof fn a_command_arms_its_stage(
    before: CalCollect,
    cmd: CalCmd,
    now_us: u64,
    after: CalCollect,
    reals: CollectedReals,
    r: Option<Finalized>,
)
    requires
        window_end(cmd, now_us) <= u64::MAX,
        commanded(before, cmd, now_us, after),
        finalized(after, reals, r),
    ensures
        cmd.action == 2 ==> ends_at(after) is None && r is None,
        cmd.action != 2 && 2 <= cmd.stage <= 5 ==> {
            &&& ends_at(after) is Some
            &&& ends_at(after)->0 - now_us == cmd.collect_ms * 1000
            &&& collected(after) == 0
            &&& r is Some
            &&& r->0.resp.stage == cmd.stage
        },
        cmd.action != 2 && !(2 <= cmd.stage <= 5) ==> after == before,
        identity_ack().stage == 1 && identity_ack().result == cal_result::OK
            && identity_ack().n_samples == 0,
{
}

/// A baseline is what was collected: the mean strength to within half a unit,
/// the number of samples, and the given statistics under their own names; the
/// transmitter is told the same strength, noise floor and number.
pub proof fn baseline_is_what_was_collected(
    c: CalCollect,
    reals: CollectedReals,
    r: Option<Finalized>,
)
    requires
        c is Baseline,
        c.wf(),
        c->collector.samples() > 0,
        finalized(c, reals, r),
    ensures
        ({
            let n = c->collector.samples();
            let resp = r->0.resp;
            &&& r is Some
            &&& resp.stage == 3
            &&& resp.n_samples == n
            &&& resp.noise_floor == reals.noise_floor
            &&& -n <= 2 * (n * resp.rssi - c->collector.rssi_sum()) <= n
            &&& r->0.baseline is Some <==> n >= 100
            &&& resp.result == cal_result::OK <==> n >= 100
            &&& r->0.baseline matches Some(b) ==> {
                &&& b.valid
                &&& b.mean == reals.mean && b.std == reals.std && b.noise_floor == reals.noise_floor
                &&& b.n_samples == n && b.rssi_mean == resp.rssi
            }
        }),
{
    let (n, s) = (c->collector.samples() as int, c->collector.rssi_sum());
    let q = rounded_mean(s, n);
    crate::calibration::rounded_mean_is_near(s, n);
    assert(2 * q * n == 2 * (n * q)) by (nonlinear_arith);
    assert(-32768 <= q <= 32767) by (nonlinear_arith)
        requires
            2 * q * n - n <= 2 * s <= 2 * q * n + n,
            -32768 * n <= s <= 32767 * n,
            n > 0,
    ;
}

/// A collection answers once: finishing when nothing is collected gives no
/// response, and a finished collection is gone.
pub proof fn a_collection_answers_once(
    c: CalCollect,
    reals: CollectedReals,
    first: Option<Finalized>,
    second: Option<Finalized>,
)
    requires
        finalized(c, reals, first),
        finalized(CalCollect::Idle, reals, second),
    ensures
        second is None,
        first is Some <==> ends_at(c) is Some,
{
}

/// A new reference is adopted exactly when a baseline collection had enough
/// samples, and then the transmitter is told that it succeeded.
pub proof fn baseline_is_adopted_when_reported(
    c: CalCollect,
    reals: CollectedReals,
    r: Option<Finalized>,
)
    requires
        finalized(c, reals, r),
        r is Some,
    ensures
        r->0.baseline is Some <==> c is Baseline && collected(c) >= MIN_BASELINE_SAMPLES,
        c is Baseline ==> (r->0.resp.result == cal_result::OK <==> r->0.baseline is Some),
{
}

} // verus!

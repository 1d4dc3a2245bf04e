//! Calibration state machine.
//!
//! Stages: identity and link check; transmit power sweep; empty-room baseline;
//! moving-person thresholds; fingerprint. Commands go to both receivers, and
//! responses come back from each. The functions here take the commands, the
//! responses and the time, and say which command to send next and which
//! result is ready.

use vstd::prelude::*;

use crate::calibration::{ClassThresholds, SweepPoint};
use crate::protocol::{cal_action, cal_stage, node, CalCmd, CalResp};
use crate::single::{exceeds, greater};
use crate::storage::RadarConfig;
use crate::wire::F32Bits;

verus! {

/// -45.0: the received power that the sweep aims at.
pub const TARGET_RSSI_DBM: F32Bits = 0xC234_0000;

/// Points of the power sweep: 4, 8, 12, 16 and 20 dBm.
pub const SWEEP_POINTS: usize = 5;

/// Collection window per sweep point (ms).
pub const SWEEP_COLLECT_MS: u32 = 800;

/// How long to wait for both responses to a sweep point.
pub const SWEEP_TIMEOUT_US: u64 = 2_000_000;

/// How long to wait for both links to answer a command.
pub const ACK_TIMEOUT_US: u64 = 3_000_000;

/// Empty-room collection window (ms).
pub const CAL3_WINDOW_MS: u32 = 10_000;

/// Moving-person collection window.
pub const CAL4_WINDOW_US: u64 = 15_000_000;

/// Fingerprint capture window (ms).
pub const CAL5_WINDOW_MS: u32 = 5_000;

/// Saturation at which the sweep stops.
pub const SAT_STOP: u8 = 70;

/// Lowest transmit power of the radio (dBm).
pub const MIN_TX_POWER_DBM: i16 = 4;

/// Highest transmit power that is commissioned (dBm).
pub const MAX_TX_POWER_DBM: i16 = 20;

/// Transmit power before commissioning (dBm).
pub const DEFAULT_TX_POWER_DBM: u8 = 6;

/// Bins of the energy histogram.
pub const HIST_BINS: usize = 200;

/// Pairs that a moving test needs to be meaningful.
pub const MIN_PAIRS: u32 = 50;

/// Commands to the calibration controller.
#[derive(Clone, Copy, Debug, PartialEq, Eq, Structural)]
pub enum CalCommand {
    /// Start a stage (one of `cal_stage`).
    StartStage(u8),
    /// Run the power sweep unless a power model is stored.
    AutoCommission,
    /// Abort any running stage.
    Abort,
}

/// The transmit power of a sweep point.
pub open spec fn sweep_power(idx: int) -> i16 {
    (4 + 4 * idx) as i16
}

/// The transmit power of a sweep point.
pub fn sweep_power_dbm(idx: usize) -> (p: i16)
    requires
        idx < SWEEP_POINTS,
    ensures
        p == sweep_power(idx as int),
{
    4 + 4 * idx as i16
}

/// A wait for the responses of both receivers.
#[derive(Clone, Copy, Debug, PartialEq, Eq, Structural)]
pub struct Wait {
    pub deadline_us: u64,
    pub resp_rx1: Option<CalResp>,
    pub resp_rx2: Option<CalResp>,
}

/// Both receivers have answered.
pub open spec fn both_answered(w: Wait) -> bool {
    w.resp_rx1 is Some && w.resp_rx2 is Some
}

/// A wait is over when both receivers have answered or the deadline has come.
pub open spec fn wait_over(w: Wait, now: u64) -> bool {
    both_answered(w) || now >= w.deadline_us
}

/// A wait after a response; the latest response of a receiver counts.
pub open spec fn answered(w: Wait, src: u8, resp: CalResp) -> Wait {
    if src == node::RX1 {
        Wait { resp_rx1: Some(resp), ..w }
    } else if src == node::RX2 {
        Wait { resp_rx2: Some(resp), ..w }
    } else {
        w
    }
}

/// The larger of what the receivers answered, 0 if none did.
pub open spec fn larger_of(a: Option<int>, b: Option<int>) -> int {
    match (a, b) {
        (Some(x), Some(y)) => if x >= y {
            x
        } else {
            y
        },
        (Some(x), None) => x,
        (None, Some(y)) => y,
        (None, None) => 0,
    }
}

/// The smaller of what the receivers answered, 0 if none did.
pub open spec fn smaller_of(a: Option<int>, b: Option<int>) -> int {
    match (a, b) {
        (Some(x), Some(y)) => if x <= y {
            x
        } else {
            y
        },
        (Some(x), None) => x,
        (None, Some(y)) => y,
        (None, None) => 0,
    }
}

/// The field `f` of a response, if there is one.
pub open spec fn told(r: Option<CalResp>, f: spec_fn(CalResp) -> int) -> Option<int> {
    match r {
        Some(resp) => Some(f(resp)),
        None => None,
    }
}

/// The highest saturation answered.
pub open spec fn worst_sat(w: Wait) -> int {
    larger_of(
        told(w.resp_rx1, |r: CalResp| r.sat_score as int),
        told(w.resp_rx2, |r: CalResp| r.sat_score as int),
    )
}

/// The worst case of what the receivers answered: the strongest signal and
/// saturation, the lowest ratio, quality and range.
pub open spec fn worst_point(w: Wait, power: i16) -> SweepPoint {
    SweepPoint {
        tx_power_db: power,
        rssi: larger_of(
            told(w.resp_rx1, |r: CalResp| r.rssi as int),
            told(w.resp_rx2, |r: CalResp| r.rssi as int),
        ) as i16,
        snr: smaller_of(
            told(w.resp_rx1, |r: CalResp| r.snr as int),
            told(w.resp_rx2, |r: CalResp| r.snr as int),
        ) as i8,
        csi_quality: smaller_of(
            told(w.resp_rx1, |r: CalResp| r.csi_quality as int),
            told(w.resp_rx2, |r: CalResp| r.csi_quality as int),
        ) as u8,
        sat_score: worst_sat(w) as u8,
        dyn_range: smaller_of(
            told(w.resp_rx1, |r: CalResp| r.dyn_range as int),
            told(w.resp_rx2, |r: CalResp| r.dyn_range as int),
        ) as u8,
    }
}

/// `r` is an answer of the wait.
pub open spec fn is_answer(w: Wait, r: CalResp) -> bool {
    w.resp_rx1 == Some(r) || w.resp_rx2 == Some(r)
}

/// `p` is the worst case of the answers: none heard a stronger signal or was
/// more saturated, none had a lower ratio, quality or range, and each of these
/// values is one that a receiver answered.
pub open spec fn bounds_the_answers(w: Wait, p: SweepPoint) -> bool {
    &&& forall|r: CalResp| #[trigger]
        is_answer(w, r) ==> p.rssi >= r.rssi && p.sat_score >= r.sat_score && p.snr <= r.snr
            && p.csi_quality <= r.csi_quality && p.dyn_range <= r.dyn_range
    &&& exists|r: CalResp| #[trigger] is_answer(w, r) && p.rssi == r.rssi
    &&& exists|r: CalResp| #[trigger] is_answer(w, r) && p.sat_score == r.sat_score
    &&& exists|r: CalResp| #[trigger] is_answer(w, r) && p.snr == r.snr
    &&& exists|r: CalResp| #[trigger] is_answer(w, r) && p.csi_quality == r.csi_quality
    &&& exists|r: CalResp| #[trigger] is_answer(w, r) && p.dyn_range == r.dyn_range
}

/// What a sweep records at a power is the worst case over the receivers that
/// answered, under the power that was set.
pub proof fn recorded_point_is_the_worst_case(w: Wait, power: i16)
    ensures
        worst_point(w, power).tx_power_db == power,
        w.resp_rx1 is Some || w.resp_rx2 is Some ==> bounds_the_answers(w, worst_point(w, power)),
        worst_sat(w) == worst_point(w, power).sat_score,
{
    if w.resp_rx1 is Some {
        assert(is_answer(w, w.resp_rx1->0));
    }
    if w.resp_rx2 is Some {
        assert(is_answer(w, w.resp_rx2->0));
    }
}

/// It does not matter which receiver gave which answer.
pub proof fn receivers_count_alike(w: Wait, power: i16)
    ensures
        worst_point(
            Wait { resp_rx1: w.resp_rx2, resp_rx2: w.resp_rx1, ..w },
            power,
        ) == worst_point(w, power),
{
}

/// A response is recorded for the receiver it came from, in place of an
/// earlier one, and touches nothing else; one of another node is dropped.
pub proof fn responses_go_to_their_receiver(w: Wait, src: u8, resp: CalResp)
    ensures
        answered(w, src, resp).deadline_us == w.deadline_us,
        answered(w, src, resp).resp_rx1 == if src == 2 {
            Some(resp)
        } else {
            w.resp_rx1
        },
        answered(w, src, resp).resp_rx2 == if src == 3 {
            Some(resp)
        } else {
            w.resp_rx2
        },
{
}

fn larger_i16(a: i16, b: i16) -> (r: i16)
    ensures
        r == if a >= b {
            a
        } else {
            b
        },
{
    if a >= b {
        a
    } else {
        b
    }
}

fn smaller_u8(a: u8, b: u8) -> (r: u8)
    ensures
        r == if a <= b {
            a
        } else {
            b
        },
{
    if a <= b {
        a
    } else {
        b
    }
}

impl Wait {
    /// A wait without responses.
    pub fn new(deadline_us: u64) -> (w: Self)
        ensures
            w == (Wait { deadline_us, resp_rx1: None, resp_rx2: None }),
    {
        Wait { deadline_us, resp_rx1: None, resp_rx2: None }
    }

    /// Takes a response.
    pub fn push(&mut self, src: u8, resp: CalResp)
        ensures
            *final(self) == answered(*old(self), src, resp),
    {
        if src == node::RX1 {
            self.resp_rx1 = Some(resp);
        } else if src == node::RX2 {
            self.resp_rx2 = Some(resp);
        }
    }

    /// Both receivers have answered.
    pub fn both(&self) -> (b: bool)
        ensures
            b == both_answered(*self),
    {
        self.resp_rx1.is_some() && self.resp_rx2.is_some()
    }

    /// Some receiver has answered.
    pub fn any(&self) -> (b: bool)
        ensures
            b == (self.resp_rx1 is Some || self.resp_rx2 is Some),
    {
        self.resp_rx1.is_some() || self.resp_rx2.is_some()
    }

    /// The worst case of what the receivers answered.
    pub fn point(&self, power: i16) -> (p: SweepPoint)
        ensures
            p == worst_point(*self, power),
            p.tx_power_db == power,
            self.resp_rx1 is Some || self.resp_rx2 is Some ==> bounds_the_answers(*self, p),
    {
        proof {
            recorded_point_is_the_worst_case(*self, power);
        }
        match (self.resp_rx1, self.resp_rx2) {
            (Some(a), Some(b)) => SweepPoint {
                tx_power_db: power,
                rssi: larger_i16(a.rssi, b.rssi),
                snr: if a.snr <= b.snr {
                    a.snr
                } else {
                    b.snr
                },
                csi_quality: smaller_u8(a.csi_quality, b.csi_quality),
                sat_score: if a.sat_score >= b.sat_score {
                    a.sat_score
                } else {
                    b.sat_score
                },
                dyn_range: smaller_u8(a.dyn_range, b.dyn_range),
            },
            (Some(a), None) => SweepPoint {
                tx_power_db: power,
                rssi: a.rssi,
                snr: a.snr,
                csi_quality: a.csi_quality,
                sat_score: a.sat_score,
                dyn_range: a.dyn_range,
            },
            (None, Some(b)) => SweepPoint {
                tx_power_db: power,
                rssi: b.rssi,
                snr: b.snr,
                csi_quality: b.csi_quality,
                sat_score: b.sat_score,
                dyn_range: b.dyn_range,
            },
            (None, None) => SweepPoint {
                tx_power_db: power,
                rssi: 0,
                snr: 0,
                csi_quality: 0,
                sat_score: 0,
                dyn_range: 0,
            },
        }
    }
}

/// Where the controller stands.
#[derive(Debug)]
pub enum Phase {
    Idle,
    /// Waiting for both links to answer a command.
    WaitResp { stage: u8, wait: Wait },
    /// Power sweep: waiting on the point `idx`.
    Cal2 { points: Vec<SweepPoint>, idx: usize, wait: Wait },
    /// Moving test: collecting fused energy over a timed window.
    Cal4 { window_start_us: u64, window_us: u64 },
    Done,
}

/// Where the controller stands, as a value.
pub enum PhaseView {
    Idle,
    WaitResp { stage: u8, wait: Wait },
    Cal2 { points: Seq<SweepPoint>, idx: nat, wait: Wait },
    Cal4 { window_start_us: u64, window_us: u64 },
    Done,
}

impl View for Phase {
    type V = PhaseView;

    open spec fn view(&self) -> PhaseView {
        match self {
            Phase::Idle => PhaseView::Idle,
            Phase::WaitResp { stage, wait } => PhaseView::WaitResp { stage: *stage, wait: *wait },
            Phase::Cal2 { points, idx, wait } => PhaseView::Cal2 {
                points: points@,
                idx: *idx as nat,
                wait: *wait,
            },
            Phase::Cal4 { window_start_us, window_us } => PhaseView::Cal4 {
                window_start_us: *window_start_us,
                window_us: *window_us,
            },
            Phase::Done => PhaseView::Done,
        }
    }
}

/// Calibration controller.
#[derive(Debug)]
pub struct Calibrator {
    pub phase: Phase,
    pub stage: u8,
    pub active: bool,
    pub has_model: bool,
    pub pending_thresholds: Option<ClassThresholds>,
    /// Histogram of the fused energy during the moving test.
    pub hist: [u32; 200],
    pub count: u32,
    pub max_energy: F32Bits,
    pub max_dev: F32Bits,
}

/// The controller as a value.
#[verifier::ext_equal]
pub struct CalView {
    pub phase: PhaseView,
    pub stage: u8,
    pub active: bool,
    pub has_model: bool,
    pub pending: Option<ClassThresholds>,
    pub hist: Seq<u32>,
    pub count: u32,
    pub max_energy: F32Bits,
    pub max_dev: F32Bits,
}

impl View for Calibrator {
    type V = CalView;

    open spec fn view(&self) -> CalView {
        CalView {
            phase: self.phase@,
            stage: self.stage,
            active: self.active,
            has_model: self.has_model,
            pending: self.pending_thresholds,
            hist: self.hist@,
            count: self.count,
            max_energy: self.max_energy,
            max_dev: self.max_dev,
        }
    }
}

/// Sum of the first `k` bins.
pub open spec fn bins_below(hist: Seq<u32>, k: int) -> int
    decreases k,
{
    if k <= 0 {
        0
    } else {
        bins_below(hist, k - 1) + hist[k - 1]
    }
}

/// An empty histogram.
pub open spec fn empty_hist() -> Seq<u32> {
    Seq::new(200, |i: int| 0u32)
}

/// No stage has run and no power model is stored.
pub open spec fn idle_view() -> CalView {
    CalView {
        phase: PhaseView::Idle,
        stage: 0,
        active: false,
        has_model: false,
        pending: None,
        hist: empty_hist(),
        count: 0,
        max_energy: 0,
        max_dev: 0,
    }
}

/// A stage is running.
pub open spec fn running(p: PhaseView) -> bool {
    p is WaitResp || p is Cal2 || p is Cal4
}

/// What every operation of the controller keeps: a stage is shown exactly
/// while one runs, a sweep has recorded at most the points it has visited, and
/// the histogram holds as many entries as pairs were counted.
pub open spec fn consistent(c: CalView) -> bool {
    &&& c.active == running(c.phase)
    &&& (c.stage != 0) == c.active
    &&& c.phase matches PhaseView::WaitResp { stage, .. } ==> stage == c.stage
    &&& c.phase matches PhaseView::Cal2 { points, idx, .. } ==> idx < SWEEP_POINTS && points.len()
        <= idx && c.stage == cal_stage::RF_POWER
    &&& c.phase matches PhaseView::Cal4 { window_start_us, window_us } ==> window_start_us
        + window_us <= u64::MAX && c.stage == cal_stage::MOVING_TEST
    &&& c.hist.len() == HIST_BINS
    &&& bins_below(c.hist, 200) == c.count
}

/// The command of a stage.
pub open spec fn stage_command(stage: u8) -> CalCmd {
    if stage == cal_stage::IDENTITY {
        CalCmd { stage, action: cal_action::START, collect_ms: 0, tx_power_db: 0 }
    } else if stage == cal_stage::RF_POWER {
        sweep_command(0)
    } else if stage == cal_stage::EMPTY_ROOM {
        CalCmd { stage, action: cal_action::COLLECT, collect_ms: CAL3_WINDOW_MS, tx_power_db: 0 }
    } else if stage == cal_stage::MOVING_TEST {
        CalCmd {
            stage,
            action: cal_action::COLLECT,
            collect_ms: (CAL4_WINDOW_US / 1000) as u32,
            tx_power_db: 0,
        }
    } else {
        CalCmd { stage, action: cal_action::COLLECT, collect_ms: CAL5_WINDOW_MS, tx_power_db: 0 }
    }
}

/// The command of a sweep point.
pub open spec fn sweep_command(idx: int) -> CalCmd {
    CalCmd {
        stage: cal_stage::RF_POWER,
        action: cal_action::COLLECT,
        collect_ms: SWEEP_COLLECT_MS,
        tx_power_db: sweep_power(idx),
    }
}

/// A wait without responses.
pub open spec fn fresh_wait(deadline_us: int) -> Wait {
    Wait { deadline_us: deadline_us as u64, resp_rx1: None, resp_rx2: None }
}

/// What the controller asks for: a transmit power, a command to both
/// receivers, in this order.
#[derive(Clone, Copy, Debug, PartialEq, Eq, Structural)]
pub struct Orders {
    pub set_power: Option<i16>,
    pub command: Option<CalCmd>,
}

/// Nothing is asked for.
pub open spec fn no_orders() -> Orders {
    Orders { set_power: None, command: None }
}

/// The controller after a stage is begun at `now`, and what it asks for. A
/// number of no stage changes nothing.
pub open spec fn begun(c: CalView, stage: u8, now: u64) -> (CalView, Orders) {
    let started = CalView { stage, active: true, ..c };
    let command = Orders { set_power: None, command: Some(stage_command(stage)) };
    if stage == cal_stage::IDENTITY {
        (
            CalView {
                phase: PhaseView::WaitResp { stage, wait: fresh_wait(now + ACK_TIMEOUT_US) },
                ..started
            },
            command,
        )
    } else if stage == cal_stage::RF_POWER {
        (
            CalView {
                phase: PhaseView::Cal2 {
                    points: Seq::empty(),
                    idx: 0,
                    wait: fresh_wait(now + SWEEP_TIMEOUT_US),
                },
                ..started
            },
            Orders { set_power: Some(sweep_power(0)), command: Some(sweep_command(0)) },
        )
    } else if stage == cal_stage::EMPTY_ROOM {
        (
            CalView {
                phase: PhaseView::WaitResp {
                    stage,
                    wait: fresh_wait(now + ACK_TIMEOUT_US + CAL3_WINDOW_MS * 1000),
                },
                ..started
            },
            command,
        )
    } else if stage == cal_stage::MOVING_TEST {
        (
            CalView {
                phase: PhaseView::Cal4 { window_start_us: now, window_us: CAL4_WINDOW_US },
                hist: empty_hist(),
                count: 0,
                max_energy: 0,
                max_dev: 0,
                ..started
            },
            command,
        )
    } else if stage == cal_stage::FINGERPRINT {
        (
            CalView {
                phase: PhaseView::WaitResp {
                    stage,
                    wait: fresh_wait(now + ACK_TIMEOUT_US + CAL5_WINDOW_MS * 1000),
                },
                ..started
            },
            command,
        )
    } else {
        (c, no_orders())
    }
}

/// The controller after a command, and what it asks for.
pub open spec fn started(c: CalView, cmd: CalCommand, now: u64) -> (CalView, Orders) {
    match cmd {
        CalCommand::Abort => (
            CalView { phase: PhaseView::Idle, stage: 0, active: false, ..c },
            no_orders(),
        ),
        CalCommand::StartStage(s) => begun(c, s, now),
        CalCommand::AutoCommission => if c.has_model {
            (c, no_orders())
        } else {
            begun(c, cal_stage::RF_POWER, now)
        },
    }
}

/// The controller after a response: one that it waits for is recorded, any
/// other is dropped.
pub open spec fn responded(c: CalView, src: u8, resp: CalResp) -> CalView {
    match c.phase {
        PhaseView::WaitResp { stage, wait } => if resp.stage == stage {
            CalView {
                phase: PhaseView::WaitResp { stage, wait: answered(wait, src, resp) },
                ..c
            }
        } else {
            c
        },
        PhaseView::Cal2 { points, idx, wait } => if resp.stage == cal_stage::RF_POWER {
            CalView {
                phase: PhaseView::Cal2 { points, idx, wait: answered(wait, src, resp) },
                ..c
            }
        } else {
            c
        },
        _ => c,
    }
}

/// What became ready by a tick.
#[derive(Debug)]
pub enum TickOutcome {
    Quiet,
    /// The sweep goes on with its next point.
    NextPoint(Orders),
    /// The sweep is over; a power model can be fitted to its points.
    SweepDone(Vec<SweepPoint>),
    /// The moving test is over; thresholds can be derived.
    MovingDone,
    /// A stage that only waits for answers is over.
    StageDone(u8),
}

/// What became ready, as a value.
pub enum OutcomeView {
    Quiet,
    NextPoint(Orders),
    SweepDone(Seq<SweepPoint>),
    MovingDone,
    StageDone(u8),
}

impl View for TickOutcome {
    type V = OutcomeView;

    open spec fn view(&self) -> OutcomeView {
        match self {
            TickOutcome::Quiet => OutcomeView::Quiet,
            TickOutcome::NextPoint(o) => OutcomeView::NextPoint(*o),
            TickOutcome::SweepDone(p) => OutcomeView::SweepDone(p@),
            TickOutcome::MovingDone => OutcomeView::MovingDone,
            TickOutcome::StageDone(s) => OutcomeView::StageDone(*s),
        }
    }
}

/// The points of a sweep after the wait on one of them is over: it is recorded
/// if a receiver answered.
pub open spec fn recorded(points: Seq<SweepPoint>, idx: nat, wait: Wait) -> Seq<SweepPoint> {
    if wait.resp_rx1 is Some || wait.resp_rx2 is Some {
        points.push(worst_point(wait, sweep_power(idx as int)))
    } else {
        points
    }
}

/// A controller whose stage is over.
pub open spec fn over(c: CalView) -> CalView {
    CalView { phase: PhaseView::Done, stage: 0, active: false, ..c }
}

/// The controller after a tick at `now`, and what became ready.
pub open spec fn ticked(c: CalView, now: u64) -> (CalView, OutcomeView) {
    match c.phase {
        PhaseView::WaitResp { stage, wait } => if wait_over(wait, now) {
            (over(c), OutcomeView::StageDone(stage))
        } else {
            (c, OutcomeView::Quiet)
        },
        PhaseView::Cal2 { points, idx, wait } => if !wait_over(wait, now) {
            (c, OutcomeView::Quiet)
        } else if idx + 1 >= SWEEP_POINTS || worst_sat(wait) >= SAT_STOP {
            (over(c), OutcomeView::SweepDone(recorded(points, idx, wait)))
        } else {
            (
                CalView {
                    phase: PhaseView::Cal2 {
                        points: recorded(points, idx, wait),
                        idx: idx + 1,
                        wait: fresh_wait(now + SWEEP_TIMEOUT_US),
                    },
                    ..c
                },
                OutcomeView::NextPoint(
                    Orders {
                        set_power: Some(sweep_power(idx as int + 1)),
                        command: Some(sweep_command(idx as int + 1)),
                    },
                ),
            )
        },
        PhaseView::Cal4 { window_start_us, window_us } => if now >= window_start_us + window_us {
            (over(c), OutcomeView::MovingDone)
        } else {
            (c, OutcomeView::Quiet)
        },
        _ => (c, OutcomeView::Quiet),
    }
}

proof fn empty_hist_has_no_entries(k: int)
    requires
        0 <= k <= 200,
    ensures
        bins_below(empty_hist(), k) == 0,
    decreases k,
{
    if k > 0 {
        empty_hist_has_no_entries(k - 1);
    }
}

proof fn one_more_entry(hist: Seq<u32>, bin: int, v: u32, k: int)
    requires
        hist.len() == 200,
        0 <= bin < 200,
        0 <= k <= 200,
    ensures
        bins_below(hist.update(bin, v), k) == bins_below(hist, k) + if bin < k {
            v - hist[bin]
        } else {
            0
        },
    decreases k,
{
    if k > 0 {
        one_more_entry(hist, bin, v, k - 1);
    }
}

proof fn bins_below_grows(hist: Seq<u32>, j: int, k: int)
    requires
        0 <= j <= k <= hist.len(),
    ensures
        0 <= bins_below(hist, j) <= bins_below(hist, k),
        j < k ==> hist[j] <= bins_below(hist, k),
    decreases k,
{
    if k > 0 {
        if j < k {
            bins_below_grows(hist, j, k - 1);
        } else {
            bins_below_grows(hist, k - 1, k - 1);
        }
    }
}

/// How far past its start, in microseconds, a stage looks ahead.
pub open spec fn stage_reach(stage: u8) -> int {
    if stage == cal_stage::IDENTITY {
        ACK_TIMEOUT_US as int
    } else if stage == cal_stage::RF_POWER {
        SWEEP_TIMEOUT_US as int
    } else if stage == cal_stage::EMPTY_ROOM {
        ACK_TIMEOUT_US + CAL3_WINDOW_MS * 1000
    } else if stage == cal_stage::MOVING_TEST {
        CAL4_WINDOW_US as int
    } else if stage == cal_stage::FINGERPRINT {
        ACK_TIMEOUT_US + CAL5_WINDOW_MS * 1000
    } else {
        0
    }
}

/// The clock can hold what a command looks ahead to.
pub open spec fn clock_suffices(c: CalView, cmd: CalCommand, now: u64) -> bool {
    match cmd {
        CalCommand::Abort => true,
        CalCommand::StartStage(stage) => now + stage_reach(stage) <= u64::MAX,
        CalCommand::AutoCommission => c.has_model || now + stage_reach(cal_stage::RF_POWER)
            <= u64::MAX,
    }
}

/// No operation of the controller leaves it inconsistent.
pub proof fn controller_stays_consistent(
    c: CalView,
    cmd: CalCommand,
    src: u8,
    resp: CalResp,
    now: u64,
)
    requires
        consistent(c),
        clock_suffices(c, cmd, now),
    ensures
        consistent(started(c, cmd, now).0),
        consistent(responded(c, src, resp)),
        consistent(ticked(c, now).0),
{
    empty_hist_has_no_entries(200);
}

/// Aborting ends whatever runs, and a controller without a running stage stays
/// so until a stage is begun.
pub proof fn abort_stops_everything(c: CalView, now: u64, later: u64, src: u8, resp: CalResp)
    requires
        consistent(c),
    ensures
        !started(c, CalCommand::Abort, now).0.active,
        !c.active ==> ticked(c, later) == (c, OutcomeView::Quiet) && responded(c, src, resp) == c,
{
}

/// The sweep is not run where a power model exists.
pub proof fn commissioning_is_not_repeated(c: CalView, now: u64)
    requires
        c.has_model,
    ensures
        started(c, CalCommand::AutoCommission, now) == (c, no_orders()),
{
}

/// No stage runs forever: past the deadline of its wait or window a tick ends
/// it, or takes a sweep to its next point, of which there are finitely many.
pub proof fn a_stage_moves_on_after_its_deadline(c: CalView, now: u64)
    requires
        consistent(c),
        match c.phase {
            PhaseView::WaitResp { wait, .. } => now >= wait.deadline_us,
            PhaseView::Cal2 { wait, .. } => now >= wait.deadline_us,
            PhaseView::Cal4 { window_start_us, window_us } => now >= window_start_us + window_us,
            _ => false,
        },
    ensures
        !ticked(c, now).0.active || (c.phase is Cal2 && ticked(c, now).0.phase is Cal2 && ticked(
            c,
            now,
        ).0.phase->Cal2_idx == c.phase->Cal2_idx + 1 < SWEEP_POINTS),
{
}

/// A sweep stops at the first point at which a receiver saturates.
pub proof fn sweep_stops_at_saturation(c: CalView, now: u64)
    requires
        c.phase is Cal2,
        wait_over(c.phase->Cal2_wait, now),
        worst_sat(c.phase->Cal2_wait) >= SAT_STOP,
    ensures
        ticked(c, now).1 is SweepDone,
        !ticked(c, now).0.active,
{
}

/// The points of a sweep were taken at rising powers, all below that of the
/// point `idx`.
pub open spec fn powers_rise(points: Seq<SweepPoint>, idx: nat) -> bool {
    &&& forall|i: int, j: int|
        0 <= i < j < points.len() ==> (#[trigger] points[i]).tx_power_db < (
        #[trigger] points[j]).tx_power_db
    &&& forall|i: int|
        0 <= i < points.len() ==> 4 <= (#[trigger] points[i]).tx_power_db < 4 + 4 * idx
}

/// A sweep steps up: it begins at the lowest power, and each further point is
/// asked for at 4 dB more than the one before, at the power that is set with
/// it. What it has recorded is kept, in order of rising power, and each new
/// point is the worst case of the answers at the power that was asked for; a
/// point that nobody answered is left out.
pub proof fn sweep_steps_up(c: CalView, now: u64)
    requires
        consistent(c),
        c.phase is Cal2,
        powers_rise(c.phase->points, c.phase->Cal2_idx),
        now >= c.phase->Cal2_wait.deadline_us || (c.phase->Cal2_wait.resp_rx1 is Some
            && c.phase->Cal2_wait.resp_rx2 is Some),
        now + SWEEP_TIMEOUT_US <= u64::MAX,
    ensures
        ({
            let (points, idx, wait) = (c.phase->points, c.phase->Cal2_idx, c.phase->Cal2_wait);
            let (after, outcome) = ticked(c, now);
            let kept = match outcome {
                OutcomeView::SweepDone(taken) => taken,
                _ => after.phase->points,
            };
            let heard = wait.resp_rx1 is Some || wait.resp_rx2 is Some;
            &&& outcome is SweepDone || (outcome is NextPoint && after.phase is Cal2)
            &&& powers_rise(kept, idx + 1)
            &&& !heard ==> kept == points
            &&& heard ==> kept.len() == points.len() + 1 && kept.drop_last() == points
                && kept.last().tx_power_db == 4 + 4 * idx && bounds_the_answers(wait, kept.last())
            &&& outcome matches OutcomeView::NextPoint(o) ==> {
                &&& after.active && after.stage == cal_stage::RF_POWER
                &&& after.phase->Cal2_idx == idx + 1
                &&& after.phase->Cal2_wait.resp_rx1 is None
                &&& after.phase->Cal2_wait.resp_rx2 is None
                &&& after.phase->Cal2_wait.deadline_us == now + 2_000_000
                &&& o.set_power == Some((8 + 4 * idx) as i16)
                &&& o.command is Some
                &&& o.command->0.stage == cal_stage::RF_POWER
                &&& o.command->0.action == cal_action::COLLECT
                &&& o.command->0.tx_power_db == 8 + 4 * idx
                &&& o.command->0.collect_ms * 1000 < 2_000_000
            }
            &&& outcome is SweepDone ==> !after.active && (idx == 4 || (heard
                && kept.last().sat_score >= 70))
            &&& idx == 4 || (heard && kept.last().sat_score >= 70) ==> outcome is SweepDone
        }),
{
    let (points, idx, wait) = (c.phase->points, c.phase->Cal2_idx, c.phase->Cal2_wait);
    recorded_point_is_the_worst_case(wait, sweep_power(idx as int));
    let kept = recorded(points, idx, wait);
    if wait.resp_rx1 is Some || wait.resp_rx2 is Some {
        assert(kept.drop_last() =~= points);
    }
}

/// What beginning a stage sets up: it is shown as running, both receivers are
/// told that very stage, and the controller waits longer than it lets them
/// collect; the moving test lasts exactly as long as they are told. Only the
/// sweep sets a power, the one it commands, and only the moving test forgets
/// earlier energies.
pub proof fn a_begun_stage_runs(c: CalView, stage: u8, now: u64)
    requires
        1 <= stage <= 5,
        now + stage_reach(stage) <= u64::MAX,
    ensures
        ({
            let (after, o) = begun(c, stage, now);
            &&& after.active && after.stage == stage && running(after.phase)
            &&& after.has_model == c.has_model && after.pending == c.pending
            &&& o.command is Some && o.command->0.stage == stage
            &&& o.command->0.action == if stage == 1 {
                cal_action::START
            } else {
                cal_action::COLLECT
            }
            &&& stage == 2 ==> o.set_power == Some(4i16) && o.command->0.tx_power_db == 4
            &&& stage != 2 ==> o.set_power is None && o.command->0.tx_power_db == 0
            &&& match after.phase {
                PhaseView::WaitResp { stage: s, wait } => {
                    &&& s == stage && stage != 2 && stage != 4
                    &&& wait.resp_rx1 is None && wait.resp_rx2 is None
                    &&& wait.deadline_us == now + o.command->0.collect_ms * 1000 + 3_000_000
                },
                PhaseView::Cal2 { points, idx, wait } => {
                    &&& stage == 2 && points.len() == 0 && idx == 0
                    &&& wait.resp_rx1 is None && wait.resp_rx2 is None
                    &&& wait.deadline_us == now + 2_000_000
                    &&& wait.deadline_us > now + o.command->0.collect_ms * 1000
                },
                PhaseView::Cal4 { window_start_us, window_us } => {
                    &&& stage == 4 && window_start_us == now
                    &&& window_us == o.command->0.collect_ms * 1000 == 15_000_000
                    &&& after.count == 0 && after.max_energy == 0 && after.max_dev == 0
                    &&& forall|b: int| 0 <= b < 200 ==> #[trigger] after.hist[b] == 0
                },
                _ => false,
            }
            &&& stage == 1 ==> o.command->0.collect_ms == 0
            &&& stage == 2 ==> o.command->0.collect_ms == 800
            &&& stage == 3 ==> o.command->0.collect_ms == 10_000
            &&& stage == 5 ==> o.command->0.collect_ms == 5_000
            &&& stage != 4 ==> after.hist == c.hist && after.count == c.count && after.max_energy
                == c.max_energy && after.max_dev == c.max_dev
        }),
{
}

/// A sweep waits for both receivers until its deadline, and meanwhile nothing
/// changes.
pub proof fn sweep_waits_for_its_answers(c: CalView, now: u64)
    requires
        c.phase is Cal2,
        now < c.phase->Cal2_wait.deadline_us,
        c.phase->Cal2_wait.resp_rx1 is None || c.phase->Cal2_wait.resp_rx2 is None,
    ensures
        ticked(c, now) == (c, OutcomeView::Quiet),
{
}

/// A number of no stage begins nothing.
pub proof fn unknown_stages_begin_nothing(c: CalView, stage: u8, now: u64)
    requires
        stage == 0 || stage > 5,
    ensures
        begun(c, stage, now) == (c, no_orders()),
        begun(c, stage, now).1.command is None,
        begun(c, stage, now).1.set_power is None,
{
}

/// A wait for answers ends when both receivers have answered or its deadline
/// has come, never before, and says which stage is over; a moving test ends
/// with its window. Ending a stage keeps the model, the thresholds and the
/// energies.
pub proof fn stages_end_in_time(c: CalView, now: u64)
    requires
        consistent(c),
        c.phase is WaitResp || c.phase is Cal4,
    ensures
        ({
            let (after, outcome) = ticked(c, now);
            let ends = match c.phase {
                PhaseView::WaitResp { wait, .. } => now >= wait.deadline_us || (wait.resp_rx1
                    is Some && wait.resp_rx2 is Some),
                PhaseView::Cal4 { window_start_us, window_us } => now - window_start_us
                    >= window_us,
                _ => false,
            };
            &&& !ends ==> outcome is Quiet && after == c
            &&& ends ==> !after.active && after.stage == 0 && !running(after.phase)
            &&& ends && c.phase is WaitResp ==> outcome == OutcomeView::StageDone(c.stage)
            &&& ends && c.phase is Cal4 ==> outcome is MovingDone
            &&& after.has_model == c.has_model && after.pending == c.pending && after.hist == c.hist
                && after.count == c.count && after.max_energy == c.max_energy && after.max_dev
                == c.max_dev
        }),
{
}

/// Only an answer to the running stage counts, and it ends nothing by itself.
pub proof fn only_the_running_stage_is_answered(c: CalView, src: u8, resp: CalResp)
    requires
        consistent(c),
    ensures
        ({
            let after = responded(c, src, resp);
            let listening = c.phase is WaitResp || c.phase is Cal2;
            &&& !listening || resp.stage != c.stage || (src != 2 && src != 3) ==> after == c
            &&& after.active == c.active && after.stage == c.stage
            &&& c.phase is WaitResp && resp.stage == c.stage ==> after.phase is WaitResp
                && after.phase->WaitResp_wait == answered(c.phase->WaitResp_wait, src, resp)
            &&& c.phase is Cal2 && resp.stage == c.stage ==> after.phase is Cal2
                && after.phase->Cal2_wait == answered(c.phase->Cal2_wait, src, resp)
                && after.phase->points == c.phase->points && after.phase->Cal2_idx
                == c.phase->Cal2_idx
        }),
{
    if c.phase is WaitResp {
        let w = c.phase->WaitResp_wait;
        if src != 2 && src != 3 {
            assert(answered(w, src, resp) == w);
        }
    }
}

/// Commissioning keeps a proposal within 4 to 20 dBm, and moves it no further
/// than that takes.
pub proof fn commissioned_power_is_the_nearest_allowed(proposal: i16, other: i16)
    ensures
        4 <= commissioned(proposal) <= 20,
        4 <= proposal <= 20 ==> commissioned(proposal) == proposal,
        4 <= other <= 20 && proposal >= commissioned(proposal) ==> proposal - commissioned(proposal)
            <= (if proposal >= other {
            proposal - other
        } else {
            other - proposal
        }),
        4 <= other <= 20 && proposal < commissioned(proposal) ==> commissioned(proposal) - proposal
            <= (if proposal >= other {
            proposal - other
        } else {
            other - proposal
        }),
{
}

impl Calibrator {
    /// The controller is consistent.
    pub open spec fn wf(self) -> bool {
        consistent(self@)
    }

    /// A controller without a stage.
    pub fn new() -> (c: Self)
        ensures
            c.wf(),
            c@ == idle_view(),
    {
        let c = Calibrator {
            phase: Phase::Idle,
            stage: 0,
            active: false,
            has_model: false,
            pending_thresholds: None,
            hist: [0u32; 200],
            count: 0,
            max_energy: 0,
            max_dev: 0,
        };
        proof {
            assert(c.hist@ =~= empty_hist());
            empty_hist_has_no_entries(200);
        }
        c
    }

    /// Says whether a power model exists.
    pub fn mark_commissioned(&mut self, has_model: bool)
        requires
            old(self).wf(),
        ensures
            final(self).wf(),
            final(self)@ == (CalView { has_model, ..old(self)@ }),
    {
        self.has_model = has_model;
    }

    /// The running stage, or 0.
    pub fn current_stage(&self) -> (s: u8)
        ensures
            s == self@.stage,
    {
        self.stage
    }

    /// Whether a stage is running.
    pub fn is_active(&self) -> (a: bool)
        ensures
            a == self@.active,
    {
        self.active
    }

    /// Takes the thresholds of a finished moving test, once.
    pub fn take_thresholds(&mut self) -> (t: Option<ClassThresholds>)
        requires
            old(self).wf(),
        ensures
            final(self).wf(),
            t == old(self)@.pending,
            final(self)@ == (CalView { pending: None, ..old(self)@ }),
    {
        let t = self.pending_thresholds;
        self.pending_thresholds = None;
        t
    }

    /// Hands in the thresholds derived from a moving test.
    pub fn set_thresholds(&mut self, t: ClassThresholds)
        requires
            old(self).wf(),
        ensures
            final(self).wf(),
            final(self)@ == (CalView { pending: Some(t), ..old(self)@ }),
    {
        self.pending_thresholds = Some(t);
    }

    /// Carries out a command.
    pub fn start(&mut self, cmd: CalCommand, now: u64) -> (o: Orders)
        requires
            old(self).wf(),
            clock_suffices(old(self)@, cmd, now),
        ensures
            final(self).wf(),
            (final(self)@, o) == started(old(self)@, cmd, now),
    {
        match cmd {
            CalCommand::Abort => {
                self.phase = Phase::Idle;
                self.stage = 0;
                self.active = false;
                Orders { set_power: None, command: None }
            },
            CalCommand::StartStage(s) => self.begin_stage(s, now),
            CalCommand::AutoCommission => if self.has_model {
                Orders { set_power: None, command: None }
            } else {
                self.begin_stage(cal_stage::RF_POWER, now)
            },
        }
    }

    /// Begins a stage.
    pub fn begin_stage(&mut self, stage: u8, now: u64) -> (o: Orders)
        requires
            old(self).wf(),
            now + stage_reach(stage) <= u64::MAX,
        ensures
            final(self).wf(),
            (final(self)@, o) == begun(old(self)@, stage, now),
    {
        let ghost before = self@;
        if stage == cal_stage::IDENTITY {
            self.stage = stage;
            self.active = true;
            self.phase = Phase::WaitResp { stage, wait: Wait::new(now + ACK_TIMEOUT_US) };
            let command = CalCmd {
                stage,
                action: cal_action::START,
                collect_ms: 0,
                tx_power_db: 0,
            };
            Orders { set_power: None, command: Some(command) }
        } else if stage == cal_stage::RF_POWER {
            self.stage = stage;
            self.active = true;
            let points: Vec<SweepPoint> = Vec::new();
            self.phase = Phase::Cal2 { points, idx: 0, wait: Wait::new(now + SWEEP_TIMEOUT_US) };
            let p: i16 = sweep_power_dbm(0);
            let command = CalCmd {
                stage,
                action: cal_action::COLLECT,
                collect_ms: SWEEP_COLLECT_MS,
                tx_power_db: p,
            };
            Orders { set_power: Some(p), command: Some(command) }
        } else if stage == cal_stage::EMPTY_ROOM {
            self.stage = stage;
            self.active = true;
            let deadline: u64 = now + ACK_TIMEOUT_US + CAL3_WINDOW_MS as u64 * 1000;
            self.phase = Phase::WaitResp { stage, wait: Wait::new(deadline) };
            let command = CalCmd {
                stage,
                action: cal_action::COLLECT,
                collect_ms: CAL3_WINDOW_MS,
                tx_power_db: 0,
            };
            Orders { set_power: None, command: Some(command) }
        } else if stage == cal_stage::MOVING_TEST {
            self.stage = stage;
            self.active = true;
            self.hist = [0u32; 200];
            self.count = 0;
            self.max_energy = 0;
            self.max_dev = 0;
            self.phase = Phase::Cal4 { window_start_us: now, window_us: CAL4_WINDOW_US };
            proof {
                assert(self.hist@ =~= empty_hist());
                empty_hist_has_no_entries(200);
            }
            let command = CalCmd {
                stage,
                action: cal_action::COLLECT,
                collect_ms: (CAL4_WINDOW_US / 1000) as u32,
                tx_power_db: 0,
            };
            Orders { set_power: None, command: Some(command) }
        } else if stage == cal_stage::FINGERPRINT {
            self.stage = stage;
            self.active = true;
            let deadline: u64 = now + ACK_TIMEOUT_US + CAL5_WINDOW_MS as u64 * 1000;
            self.phase = Phase::WaitResp { stage, wait: Wait::new(deadline) };
            let command = CalCmd {
                stage,
                action: cal_action::COLLECT,
                collect_ms: CAL5_WINDOW_MS,
                tx_power_db: 0,
            };
            Orders { set_power: None, command: Some(command) }
        } else {
            Orders { set_power: None, command: None }
        }
    }

    /// Takes a fused pair; only a running moving test counts it. `bin` is the
    /// histogram bin of its energy, the last one for anything beyond.
    pub fn on_pair(&mut self, bin: usize, fused_energy: F32Bits, baseline_dev: F32Bits)
        requires
            old(self).wf(),
            old(self)@.count < u32::MAX,
        ensures
            final(self).wf(),
            !(old(self)@.phase is Cal4) ==> final(self)@ == old(self)@,
            old(self)@.phase is Cal4 ==> {
                let b: int = if bin < HIST_BINS {
                    bin as int
                } else {
                    HIST_BINS - 1
                };
                final(self)@ == (CalView {
                    count: (old(self)@.count + 1) as u32,
                    hist: old(self)@.hist.update(b, (old(self)@.hist[b] + 1) as u32),
                    max_energy: if greater(fused_energy, old(self)@.max_energy) {
                        fused_energy
                    } else {
                        old(self)@.max_energy
                    },
                    max_dev: if greater(baseline_dev, old(self)@.max_dev) {
                        baseline_dev
                    } else {
                        old(self)@.max_dev
                    },
                    ..old(self)@
                })
            },
            old(self)@.phase is Cal4 ==> {
                &&& !greater(fused_energy, final(self)@.max_energy)
                &&& !greater(baseline_dev, final(self)@.max_dev)
                &&& final(self)@.max_energy == fused_energy || final(self)@.max_energy == old(
                    self,
                )@.max_energy
                &&& final(self)@.max_dev == baseline_dev || final(self)@.max_dev == old(
                    self,
                )@.max_dev
                &&& bin < 200 ==> final(self)@.hist[bin as int] == old(self)@.hist[bin as int] + 1
                &&& forall|b: int|
                    0 <= b < 199 && b != bin ==> #[trigger] final(self)@.hist[b] == old(
                        self,
                    )@.hist[b]
            },
    {
        match &self.phase {
            Phase::Cal4 { .. } => {},
            _ => {
                return;
            },
        }
        let b: usize = if bin < HIST_BINS {
            bin
        } else {
            HIST_BINS - 1
        };
        proof {
            bins_below_grows(self.hist@, b as int, 200);
            one_more_entry(self.hist@, b as int, (self.hist@[b as int] + 1) as u32, 200);
        }
        self.count = self.count + 1;
        self.hist[b] = self.hist[b] + 1;
        if exceeds(fused_energy, self.max_energy) {
            self.max_energy = fused_energy;
        }
        if exceeds(baseline_dev, self.max_dev) {
            self.max_dev = baseline_dev;
        }
    }

    /// Takes a response.
    pub fn on_resp(&mut self, src: u8, resp: CalResp)
        requires
            old(self).wf(),
        ensures
            final(self).wf(),
            final(self)@ == responded(old(self)@, src, resp),
    {
        match &mut self.phase {
            Phase::WaitResp { stage, wait } => {
                if resp.stage == *stage {
                    wait.push(src, resp);
                }
            },
            Phase::Cal2 { wait, .. } => {
                if resp.stage == cal_stage::RF_POWER {
                    wait.push(src, resp);
                }
            },
            _ => {},
        }
    }

    /// Advances the controller.
    pub fn tick(&mut self, now: u64) -> (o: TickOutcome)
        requires
            old(self).wf(),
            old(self)@.phase is Cal2 ==> now + SWEEP_TIMEOUT_US <= u64::MAX,
        ensures
            final(self).wf(),
            (final(self)@, o@) == ticked(old(self)@, now),
    {
        let mut phase = Phase::Idle;
        std::mem::swap(&mut phase, &mut self.phase);
        match phase {
            Phase::Idle => {
                self.phase = Phase::Idle;
                TickOutcome::Quiet
            },
            Phase::Done => {
                self.phase = Phase::Done;
                TickOutcome::Quiet
            },
            Phase::WaitResp { stage, wait } => {
                if wait.both() || now >= wait.deadline_us {
                    self.active = false;
                    self.stage = 0;
                    self.phase = Phase::Done;
                    TickOutcome::StageDone(stage)
                } else {
                    self.phase = Phase::WaitResp { stage, wait };
                    TickOutcome::Quiet
                }
            },
            Phase::Cal2 { points, idx, wait } => {
                if wait.both() || now >= wait.deadline_us {
                    let mut points = points;
                    let point = wait.point(sweep_power_dbm(idx));
                    let saturated = point.sat_score >= SAT_STOP;
                    if wait.any() {
                        points.push(point);
                    }
                    if idx + 1 >= SWEEP_POINTS || saturated {
                        self.active = false;
                        self.stage = 0;
                        self.phase = Phase::Done;
                        TickOutcome::SweepDone(points)
                    } else {
                        let p: i16 = sweep_power_dbm(idx + 1);
                        let command = CalCmd {
                            stage: cal_stage::RF_POWER,
                            action: cal_action::COLLECT,
                            collect_ms: SWEEP_COLLECT_MS,
                            tx_power_db: p,
                        };
                        self.phase = Phase::Cal2 {
                            points,
                            idx: idx + 1,
                            wait: Wait::new(now + SWEEP_TIMEOUT_US),
                        };
                        TickOutcome::NextPoint(
                            Orders { set_power: Some(p), command: Some(command) },
                        )
                    }
                } else {
                    self.phase = Phase::Cal2 { points, idx, wait };
                    TickOutcome::Quiet
                }
            },
            Phase::Cal4 { window_start_us, window_us } => {
                if now >= window_start_us + window_us {
                    self.active = false;
                    self.stage = 0;
                    self.phase = Phase::Done;
                    TickOutcome::MovingDone
                } else {
                    self.phase = Phase::Cal4 { window_start_us, window_us };
                    TickOutcome::Quiet
                }
            },
        }
    }

    /// Whether the moving test saw enough pairs to derive thresholds from.
    pub fn has_enough_pairs(&self) -> (e: bool)
        ensures
            e == (self@.count >= MIN_PAIRS),
            e == (self@.count >= 50),
    {
        self.count >= MIN_PAIRS
    }

    /// The first bin up to which the histogram holds `target` entries; the
    /// last bin if it holds fewer.
    pub fn percentile_bin(&self, target: u32) -> (b: usize)
        requires
            self.wf(),
        ensures
            b < HIST_BINS,
            forall|k: int| 0 <= k < b ==> bins_below(self@.hist, #[trigger] (k + 1)) < target,
            bins_below(self@.hist, b + 1) >= target || b == HIST_BINS - 1,
    {
        let mut sum: u32 = 0;
        let mut i: usize = 0;
        while i < HIST_BINS
            invariant
                i <= HIST_BINS,
                self.wf(),
                sum == bins_below(self.hist@, i as int),
                forall|k: int|
                    0 <= k < i ==> bins_below(self.hist@, #[trigger] (k + 1)) < target,
            decreases HIST_BINS - i,
        {
            proof {
                bins_below_grows(self.hist@, i + 1, 200);
            }
            sum = sum + self.hist[i];
            if sum >= target {
                return i;
            }
            i += 1;
        }
        HIST_BINS - 1
    }
}

impl Default for Calibrator {
    fn default() -> (c: Self)
        ensures
            c.wf(),
            c@ == idle_view(),
    {
        Calibrator::new()
    }
}

/// The power to commission: the model's proposal within the radio's range.
pub open spec fn commissioned(proposal: i16) -> i16 {
    if proposal < MIN_TX_POWER_DBM {
        MIN_TX_POWER_DBM
    } else if proposal > MAX_TX_POWER_DBM {
        MAX_TX_POWER_DBM
    } else {
        proposal
    }
}

/// The power to commission.
pub fn commissioned_power(proposal: i16) -> (p: i16)
    ensures
        p == commissioned(proposal),
{
    if proposal < MIN_TX_POWER_DBM {
        MIN_TX_POWER_DBM
    } else if proposal > MAX_TX_POWER_DBM {
        MAX_TX_POWER_DBM
    } else {
        proposal
    }
}

/// Records a fitted sweep: the controller has a model, and the configuration
/// the power, so that the next boot does not sweep again.
pub fn record_commissioning(cal: &mut Calibrator, config: &mut RadarConfig, proposal: i16) -> (p: i16)
    requires
        old(cal).wf(),
    ensures
        final(cal).wf(),
        p == commissioned(proposal),
        final(cal)@ == (CalView { has_model: true, ..old(cal)@ }),
        *final(config) == (RadarConfig { tx_power_db: p as u8, ..*old(config) }),
        final(config).tx_power_db != 0,
        4 <= final(config).tx_power_db <= 20,
        final(cal)@.has_model,
{
    let p: i16 = commissioned_power(proposal);
    cal.mark_commissioned(true);
    config.tx_power_db = p as u8;
    p
}

/// A transmit power in the radio's quarter-dBm units, within its range.
pub fn quarter_dbm(power_db: i16) -> (q: i8)
    ensures
        q == 4 * commissioned(power_db),
{
    (4 * commissioned_power(power_db)) as i8
}

/// The transmit power at boot: the commissioned one, or a conservative one.
pub fn boot_power(config: &RadarConfig) -> (p: u8)
    ensures
        p == (if config.tx_power_db != 0 {
            config.tx_power_db
        } else {
            DEFAULT_TX_POWER_DBM
        }),
        p != 0,
        config.tx_power_db == 0 ==> p == 6,
        config.tx_power_db != 0 ==> p == config.tx_power_db,
{
    if config.tx_power_db != 0 {
        config.tx_power_db
    } else {
        DEFAULT_TX_POWER_DBM
    }
}

} // verus!

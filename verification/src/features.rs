//! Per-link motion features and the occupancy state machine.
//!
//! The receivers are independent observations of the same packets. Because
//! the head is fixed and the empty-room baseline is stored, static presence
//! shows as a persistent deviation from the baseline while the motion energy
//! stays low. Real-valued quantities are carried and compared as bit patterns.

use vstd::prelude::*;

use crate::protocol::FeatureReport;
use crate::single::{exceeds, greater, larger, larger_of};
use crate::wire::F32Bits;

verus! {

/// Occupancy and motion state.
#[derive(Clone, Copy, Debug, PartialEq, Eq, Structural)]
pub enum OccupancyState {
    Unknown,
    Empty,
    PossiblePresence,
    StaticPresence,
    Movement,
    StrongMovement,
    ComplexMovement,
}

/// Human-readable name of a state.
pub open spec fn state_name(s: OccupancyState) -> Seq<char> {
    match s {
        OccupancyState::Unknown => "UNKNOWN"@,
        OccupancyState::Empty => "EMPTY"@,
        OccupancyState::PossiblePresence => "POSSIBLE PRESENCE"@,
        OccupancyState::StaticPresence => "STATIC PRESENCE"@,
        OccupancyState::Movement => "MOVEMENT"@,
        OccupancyState::StrongMovement => "STRONG MOVEMENT"@,
        OccupancyState::ComplexMovement => "COMPLEX/MULTIPLE MOVEMENT"@,
    }
}

/// Each state is shown under its own name.
pub proof fn states_are_shown_by_name()
    ensures
        state_name(OccupancyState::Unknown) == "UNKNOWN"@,
        state_name(OccupancyState::Empty) == "EMPTY"@,
        state_name(OccupancyState::PossiblePresence) == "POSSIBLE PRESENCE"@,
        state_name(OccupancyState::StaticPresence) == "STATIC PRESENCE"@,
        state_name(OccupancyState::Movement) == "MOVEMENT"@,
        state_name(OccupancyState::StrongMovement) == "STRONG MOVEMENT"@,
        state_name(OccupancyState::ComplexMovement) == "COMPLEX/MULTIPLE MOVEMENT"@,
{
}

impl OccupancyState {
    /// Human-readable name.
    pub fn text(self) -> (s: &'static str)
        ensures
            s@ == state_name(self),
    {
        match self {
            OccupancyState::Unknown => "UNKNOWN",
            OccupancyState::Empty => "EMPTY",
            OccupancyState::PossiblePresence => "POSSIBLE PRESENCE",
            OccupancyState::StaticPresence => "STATIC PRESENCE",
            OccupancyState::Movement => "MOVEMENT",
            OccupancyState::StrongMovement => "STRONG MOVEMENT",
            OccupancyState::ComplexMovement => "COMPLEX/MULTIPLE MOVEMENT",
        }
    }
}

/// Features of one link, as the classifier takes them.
#[derive(Clone, Copy, Debug, PartialEq, Eq, Structural)]
pub struct LinkFeatures {
    pub motion_energy: F32Bits,
    /// Deviation from the empty-room baseline, averaged over subcarriers.
    pub baseline_dev: F32Bits,
    pub spectral_entropy: F32Bits,
    pub dominant_freq_hz: F32Bits,
    pub rssi: i16,
    pub sat_score: u8,
    pub pca0: F32Bits,
    pub pca1: F32Bits,
    pub amp_std: F32Bits,
}

impl Default for LinkFeatures {
    fn default() -> (f: Self)
        ensures
            f == (LinkFeatures {
                motion_energy: 0,
                baseline_dev: 0,
                spectral_entropy: 0,
                dominant_freq_hz: 0,
                rssi: 0,
                sat_score: 0,
                pca0: 0,
                pca1: 0,
                amp_std: 0,
            }),
    {
        LinkFeatures {
            motion_energy: 0,
            baseline_dev: 0,
            spectral_entropy: 0,
            dominant_freq_hz: 0,
            rssi: 0,
            sat_score: 0,
            pca0: 0,
            pca1: 0,
            amp_std: 0,
        }
    }
}

/// The classifier's view of a feature report.
pub open spec fn report_features(r: FeatureReport) -> LinkFeatures {
    LinkFeatures {
        motion_energy: r.motion_energy,
        baseline_dev: r.baseline_dev,
        spectral_entropy: r.spectral_entropy,
        dominant_freq_hz: r.dominant_freq_hz,
        rssi: r.rssi,
        sat_score: r.sat_score,
        pca0: r.pca_scores[0],
        pca1: r.pca_scores[1],
        amp_std: r.amp_std,
    }
}

/// Takes the classifier's features from a report.
pub fn features_from_report(r: &FeatureReport) -> (f: LinkFeatures)
    ensures
        f == report_features(*r),
        f.motion_energy == r.motion_energy,
        f.baseline_dev == r.baseline_dev,
        f.spectral_entropy == r.spectral_entropy,
        f.dominant_freq_hz == r.dominant_freq_hz,
        f.rssi == r.rssi,
        f.sat_score == r.sat_score,
        f.pca0 == r.pca_scores@[0],
        f.pca1 == r.pca_scores@[1],
        f.amp_std == r.amp_std,
{
    LinkFeatures {
        motion_energy: r.motion_energy,
        baseline_dev: r.baseline_dev,
        spectral_entropy: r.spectral_entropy,
        dominant_freq_hz: r.dominant_freq_hz,
        rssi: r.rssi,
        sat_score: r.sat_score,
        pca0: r.pca_scores[0],
        pca1: r.pca_scores[1],
        amp_std: r.amp_std,
    }
}

/// Fused metrics of the two links.
#[derive(Clone, Copy, Debug, PartialEq, Eq, Structural)]
pub struct FusionMetrics {
    pub fused_energy: F32Bits,
    /// -1..1.
    pub cross_link_corr: F32Bits,
    /// First link's share of the activity.
    pub activity_ratio: F32Bits,
    /// RMS of the links' difference.
    pub differential_rms: F32Bits,
    pub pca_spectral_entropy: F32Bits,
}

impl Default for FusionMetrics {
    fn default() -> (m: Self)
        ensures
            m == (FusionMetrics {
                fused_energy: 0,
                cross_link_corr: 0,
                activity_ratio: 0,
                differential_rms: 0,
                pca_spectral_entropy: 0,
            }),
    {
        FusionMetrics {
            fused_energy: 0,
            cross_link_corr: 0,
            activity_ratio: 0,
            differential_rms: 0,
            pca_spectral_entropy: 0,
        }
    }
}

/// Classifier thresholds.
#[derive(Clone, Copy, Debug, PartialEq, Eq, Structural)]
pub struct ClassifierParams {
    /// Fused motion energy above which there is movement.
    pub move_thresh: F32Bits,
    /// Fused motion energy above which movement is strong.
    pub strong_thresh: F32Bits,
    /// Baseline deviation above which a static person is present.
    pub static_thresh: F32Bits,
    /// Fused motion energy below which the room is empty.
    pub empty_thresh: F32Bits,
    /// How strongly correlated activity must be to count.
    pub corr_weight: F32Bits,
    /// Frames a state must persist before it is committed.
    pub hold_frames: u32,
}

/// 0.6.
pub const DEFAULT_MOVE: F32Bits = 0x3F19_999A;

/// 2.5.
pub const DEFAULT_STRONG: F32Bits = 0x4020_0000;

/// 1.4.
pub const DEFAULT_STATIC: F32Bits = 0x3FB3_3333;

/// 0.05.
pub const DEFAULT_EMPTY: F32Bits = 0x3D4C_CCCD;

/// 0.5.
pub const DEFAULT_CORR_WEIGHT: F32Bits = 0x3F00_0000;

/// 0.7: spectral entropy above which strong movement is diffuse.
pub const DIFFUSE_ENTROPY: F32Bits = 0x3F33_3333;

/// Frames a state must persist by default.
pub const DEFAULT_HOLD_FRAMES: u32 = 6;

/// Committed states kept for inspection.
pub const HISTORY_LEN: usize = 32;

/// The factory thresholds.
pub open spec fn default_params() -> ClassifierParams {
    ClassifierParams {
        move_thresh: DEFAULT_MOVE,
        strong_thresh: DEFAULT_STRONG,
        static_thresh: DEFAULT_STATIC,
        empty_thresh: DEFAULT_EMPTY,
        corr_weight: DEFAULT_CORR_WEIGHT,
        hold_frames: DEFAULT_HOLD_FRAMES,
    }
}

impl Default for ClassifierParams {
    fn default() -> (p: Self)
        ensures
            p == default_params(),
    {
        ClassifierParams {
            move_thresh: DEFAULT_MOVE,
            strong_thresh: DEFAULT_STRONG,
            static_thresh: DEFAULT_STATIC,
            empty_thresh: DEFAULT_EMPTY,
            corr_weight: DEFAULT_CORR_WEIGHT,
            hold_frames: DEFAULT_HOLD_FRAMES,
        }
    }
}

/// The state that one frame alone speaks for, given the fused energy, the
/// larger baseline deviation and whether either spectrum is diffuse.
pub open spec fn candidate(
    p: ClassifierParams,
    energy: F32Bits,
    dev: F32Bits,
    diffuse: bool,
) -> OccupancyState {
    if greater(energy, p.strong_thresh) {
        if diffuse {
            OccupancyState::ComplexMovement
        } else {
            OccupancyState::StrongMovement
        }
    } else if greater(energy, p.move_thresh) {
        OccupancyState::Movement
    } else if greater(energy, p.empty_thresh) {
        OccupancyState::PossiblePresence
    } else if greater(dev, p.static_thresh) {
        OccupancyState::StaticPresence
    } else {
        OccupancyState::Empty
    }
}

/// The state that a frame speaks for, given both links' features.
pub open spec fn frame_candidate(
    p: ClassifierParams,
    r1: LinkFeatures,
    r2: LinkFeatures,
    m: FusionMetrics,
) -> OccupancyState {
    candidate(
        p,
        m.fused_energy,
        larger(r1.baseline_dev, r2.baseline_dev),
        greater(r1.spectral_entropy, DIFFUSE_ENTROPY) || greater(
            r2.spectral_entropy,
            DIFFUSE_ENTROPY,
        ),
    )
}

/// The committed state, the candidate being accumulated, and how many frames
/// in a row have spoken for it.
#[verifier::ext_equal]
pub struct Hysteresis {
    pub state: OccupancyState,
    pub pending: OccupancyState,
    pub hold: nat,
}

/// One frame that speaks for `c`.
pub open spec fn stepped(h: Hysteresis, c: OccupancyState, hold_frames: nat) -> Hysteresis {
    let hold = if c == h.pending {
        h.hold + 1
    } else {
        1
    };
    Hysteresis {
        state: if hold >= hold_frames {
            c
        } else {
            h.state
        },
        pending: c,
        hold,
    }
}

/// `n` frames in a row that speak for `c`.
pub open spec fn repeated(h: Hysteresis, c: OccupancyState, hold_frames: nat, n: nat) -> Hysteresis
    decreases n,
{
    if n == 0 {
        h
    } else {
        stepped(repeated(h, c, hold_frames, (n - 1) as nat), c, hold_frames)
    }
}

proof fn repeated_counts(h: Hysteresis, c: OccupancyState, hold_frames: nat, n: nat)
    requires
        n > 0,
    ensures
        repeated(h, c, hold_frames, n).pending == c,
        repeated(h, c, hold_frames, n).hold >= n,
        h.pending != c ==> repeated(h, c, hold_frames, n).hold == n,
    decreases n,
{
    reveal_with_fuel(repeated, 2);
    if n > 1 {
        repeated_counts(h, c, hold_frames, (n - 1) as nat);
    }
}

/// A state that persists for the hold time is committed, whatever came before.
pub proof fn persistent_state_is_committed(
    h: Hysteresis,
    c: OccupancyState,
    hold_frames: nat,
    n: nat,
)
    requires
        n > 0,
        n >= hold_frames,
    ensures
        repeated(h, c, hold_frames, n).state == c,
{
    repeated_counts(h, c, hold_frames, n);
    if n > 1 {
        repeated_counts(h, c, hold_frames, (n - 1) as nat);
    }
}

/// A new candidate that lasts less than the hold time changes no committed
/// state.
pub proof fn brief_candidate_changes_nothing(
    h: Hysteresis,
    c: OccupancyState,
    hold_frames: nat,
    n: nat,
)
    requires
        h.pending != c,
        n < hold_frames,
    ensures
        repeated(h, c, hold_frames, n).state == h.state,
    decreases n,
{
    if n > 0 {
        brief_candidate_changes_nothing(h, c, hold_frames, (n - 1) as nat);
        repeated_counts(h, c, hold_frames, n);
    }
}

/// Before any frame.
pub open spec fn undecided() -> Hysteresis {
    Hysteresis { state: OccupancyState::Unknown, pending: OccupancyState::Unknown, hold: 0 }
}

/// After frames that speak for the given states in turn.
pub open spec fn after_frames(cs: Seq<OccupancyState>, hold_frames: nat) -> Hysteresis
    decreases cs.len(),
{
    if cs.len() == 0 {
        undecided()
    } else {
        stepped(after_frames(cs.drop_last(), hold_frames), cs.last(), hold_frames)
    }
}

/// The last `n` frames all speak for `c`.
pub open spec fn last_speak_for(cs: Seq<OccupancyState>, c: OccupancyState, n: nat) -> bool {
    &&& n <= cs.len()
    &&& forall|i: int| cs.len() - n <= i < cs.len() ==> #[trigger] cs[i] == c
}

/// Frames in a row that it takes to commit a state.
pub open spec fn frames_to_commit(hold_frames: nat) -> nat {
    if hold_frames > 1 {
        hold_frames
    } else {
        1
    }
}

/// The count is the length of the run of like candidates at the end.
proof fn hold_is_the_last_run(cs: Seq<OccupancyState>, hold_frames: nat)
    requires
        cs.len() > 0,
    ensures
        ({
            let h = after_frames(cs, hold_frames);
            &&& h.pending == cs.last()
            &&& 1 <= h.hold <= cs.len()
            &&& last_speak_for(cs, cs.last(), h.hold)
            &&& h.hold < cs.len() ==> cs[cs.len() - 1 - h.hold] != cs.last()
        }),
    decreases cs.len(),
{
    let before = cs.drop_last();
    reveal_with_fuel(after_frames, 2);
    if before.len() > 0 {
        hold_is_the_last_run(before, hold_frames);
        let h0 = after_frames(before, hold_frames);
        let h = after_frames(cs, hold_frames);
        if cs.last() == h0.pending {
            assert forall|i: int| cs.len() - h.hold <= i < cs.len() implies #[trigger] cs[i]
                == cs.last() by {
                if i < before.len() {
                    assert(before[i] == before.last());
                }
            }
            if h.hold < cs.len() {
                assert(before[before.len() - 1 - h0.hold] == cs[cs.len() - 1 - h.hold]);
            }
        } else {
            assert(cs[cs.len() - 2] == before.last());
        }
    }
}

/// The committed state is decided by runs of like candidates: it changes only
/// to a state that the last frames, as many as the hold time, all spoke for;
/// it is that state whenever they did; and before that many frames it is
/// unknown.
pub proof fn runs_decide_the_state(cs: Seq<OccupancyState>, hold_frames: nat)
    ensures
        ({
            let n = frames_to_commit(hold_frames);
            let state = after_frames(cs, hold_frames).state;
            &&& cs.len() > 0 && state != after_frames(cs.drop_last(), hold_frames).state
                ==> last_speak_for(cs, state, n)
            &&& forall|c: OccupancyState| #[trigger] last_speak_for(cs, c, n) ==> state == c
            &&& cs.len() < n ==> state == OccupancyState::Unknown
        }),
    decreases cs.len(),
{
    let n = frames_to_commit(hold_frames);
    let h = after_frames(cs, hold_frames);
    if cs.len() > 0 {
        hold_is_the_last_run(cs, hold_frames);
        runs_decide_the_state(cs.drop_last(), hold_frames);
        assert forall|c: OccupancyState| #[trigger] last_speak_for(cs, c, n) implies h.state
            == c by {
            assert(cs[cs.len() - 1] == c);
            if h.hold < n {
                assert(cs[cs.len() - 1 - h.hold] == c);
            }
        }
    }
}

/// Movement outranks presence: with ordered thresholds, a frame above the
/// movement threshold never speaks for presence or an empty room, and one that
/// speaks for an empty room exceeds no threshold at all.
pub proof fn candidate_follows_the_thresholds(
    p: ClassifierParams,
    energy: F32Bits,
    dev: F32Bits,
    diffuse: bool,
)
    ensures
        greater(energy, p.move_thresh) ==> candidate(p, energy, dev, diffuse)
            != OccupancyState::Empty && candidate(p, energy, dev, diffuse)
            != OccupancyState::StaticPresence && candidate(p, energy, dev, diffuse)
            != OccupancyState::PossiblePresence,
        candidate(p, energy, dev, diffuse) == OccupancyState::Empty ==> !greater(
            energy,
            p.empty_thresh,
        ) && !greater(dev, p.static_thresh),
        candidate(p, energy, dev, diffuse) != OccupancyState::Unknown,
{
}

/// Which state a frame speaks for, told from what exceeds what: strong or
/// complex movement exactly above the strong threshold, complex where either
/// link's spectrum is diffuse; movement between that and the movement
/// threshold, however far the room deviates from its baseline; possible
/// presence between that and the empty threshold; below all three, static
/// presence where either link deviates from its baseline, and else an empty
/// room.
pub proof fn each_state_has_its_own_evidence(
    p: ClassifierParams,
    r1: LinkFeatures,
    r2: LinkFeatures,
    m: FusionMetrics,
)
    ensures
        ({
            let c = frame_candidate(p, r1, r2, m);
            let e = m.fused_energy;
            let diffuse = greater(r1.spectral_entropy, DIFFUSE_ENTROPY) || greater(
                r2.spectral_entropy,
                DIFFUSE_ENTROPY,
            );
            let away = greater(r1.baseline_dev, p.static_thresh) || greater(
                r2.baseline_dev,
                p.static_thresh,
            );
            &&& (c == OccupancyState::StrongMovement || c == OccupancyState::ComplexMovement)
                == greater(e, p.strong_thresh)
            &&& c == OccupancyState::ComplexMovement ==> diffuse
            &&& c == OccupancyState::StrongMovement ==> !diffuse
            &&& (c == OccupancyState::Movement) == (greater(e, p.move_thresh) && !greater(
                e,
                p.strong_thresh,
            ))
            &&& (c == OccupancyState::PossiblePresence) == (greater(e, p.empty_thresh) && !greater(
                e,
                p.move_thresh,
            ) && !greater(e, p.strong_thresh))
            &&& (c == OccupancyState::StaticPresence || c == OccupancyState::Empty) == !(greater(
                e,
                p.empty_thresh,
            ) || greater(e, p.move_thresh) || greater(e, p.strong_thresh))
            &&& c == OccupancyState::StaticPresence ==> away
            &&& c == OccupancyState::Empty ==> !away
        }),
{
    crate::single::larger_exceeds_iff_either_does(r1.baseline_dev, r2.baseline_dev, p.static_thresh);
}

/// The factory thresholds rise from empty over movement to strong movement:
/// 0.05, 0.6 and 2.5, with 1.4 for the deviation and 0.7 for the entropy.
pub proof fn factory_thresholds_rise()
    ensures
        greater(default_params().strong_thresh, default_params().move_thresh),
        greater(default_params().move_thresh, default_params().empty_thresh),
        default_params().move_thresh == 0x3F19_999A,
        default_params().strong_thresh == 0x4020_0000,
        default_params().static_thresh == 0x3FB3_3333,
        default_params().empty_thresh == 0x3D4C_CCCD,
        default_params().hold_frames == 6,
        DIFFUSE_ENTROPY == 0x3F33_3333,
        HISTORY_LEN == 32,
{
}

/// How much activity a state means.
pub open spec fn activity(s: OccupancyState) -> int {
    match s {
        OccupancyState::Unknown => 0,
        OccupancyState::Empty => 0,
        OccupancyState::StaticPresence => 0,
        OccupancyState::PossiblePresence => 1,
        OccupancyState::Movement => 2,
        OccupancyState::StrongMovement => 3,
        OccupancyState::ComplexMovement => 3,
    }
}

/// More fused energy never speaks for less activity, and while the activity
/// stays the same, so does the state: nothing else of the metrics counts.
pub proof fn more_energy_never_means_less_activity(
    p: ClassifierParams,
    r1: LinkFeatures,
    r2: LinkFeatures,
    low: FusionMetrics,
    high: FusionMetrics,
)
    requires
        !greater(low.fused_energy, high.fused_energy),
        !crate::single::is_nan(low.fused_energy),
        !crate::single::is_nan(high.fused_energy),
    ensures
        activity(frame_candidate(p, r1, r2, low)) <= activity(frame_candidate(p, r1, r2, high)),
        activity(frame_candidate(p, r1, r2, low)) == activity(frame_candidate(p, r1, r2, high))
            ==> frame_candidate(p, r1, r2, low) == frame_candidate(p, r1, r2, high),
{
}

/// The two links have equal say: exchanging them changes no verdict, and of
/// their features only the deviation and the entropy count.
pub proof fn links_have_equal_say(
    p: ClassifierParams,
    r1: LinkFeatures,
    r2: LinkFeatures,
    s1: LinkFeatures,
    s2: LinkFeatures,
    m: FusionMetrics,
)
    ensures
        frame_candidate(p, r1, r2, m) == frame_candidate(p, r2, r1, m),
        s1.baseline_dev == r1.baseline_dev && s1.spectral_entropy == r1.spectral_entropy
            && s2.baseline_dev == r2.baseline_dev && s2.spectral_entropy == r2.spectral_entropy
            ==> frame_candidate(p, s1, s2, m) == frame_candidate(p, r1, r2, m),
{
    crate::single::larger_exceeds_iff_either_does(r1.baseline_dev, r2.baseline_dev, p.static_thresh);
    crate::single::larger_exceeds_iff_either_does(r2.baseline_dev, r1.baseline_dev, p.static_thresh);
}

/// A window that slides keeps the latest elements in order: the new one last,
/// each other one place nearer to the front once the window is full.
pub proof fn sliding_keeps_the_latest<T>(window: Seq<T>, cap: nat, e: T)
    requires
        window.len() <= cap,
        cap > 0,
    ensures
        slid(window, cap, e).last() == e,
        slid(window, cap, e).len() == if window.len() < cap {
            window.len() + 1
        } else {
            cap
        },
        window.len() < cap ==> forall|i: int|
            0 <= i < window.len() ==> #[trigger] slid(window, cap, e)[i] == window[i],
        window.len() == cap ==> forall|i: int|
            0 <= i < cap - 1 ==> #[trigger] slid(window, cap, e)[i] == window[i + 1],
{
}

/// The classifier's features are the report's fields of the same names, and
/// its first two components.
pub proof fn features_keep_their_names(r: FeatureReport)
    ensures
        report_features(r).motion_energy == r.motion_energy,
        report_features(r).baseline_dev == r.baseline_dev,
        report_features(r).spectral_entropy == r.spectral_entropy,
        report_features(r).dominant_freq_hz == r.dominant_freq_hz,
        report_features(r).rssi == r.rssi,
        report_features(r).sat_score == r.sat_score,
        report_features(r).pca0 == r.pca_scores@[0],
        report_features(r).pca1 == r.pca_scores@[1],
        report_features(r).amp_std == r.amp_std,
{
}

/// What one frame led to.
#[derive(Clone, Copy, Debug, PartialEq, Eq, Structural)]
pub struct Verdict {
    /// The committed state.
    pub state: OccupancyState,
    /// The state that this frame spoke for.
    pub candidate: OccupancyState,
    /// The larger baseline deviation.
    pub dev: F32Bits,
    /// The fused energy.
    pub energy: F32Bits,
    /// Frames in a row that spoke for the candidate.
    pub hold: u32,
    /// The fused metrics that the frame came with.
    pub metrics: FusionMetrics,
}

/// `window` after one more element, at most `cap` long: the oldest gives way.
pub open spec fn slid<T>(window: Seq<T>, cap: nat, e: T) -> Seq<T> {
    let all = window.push(e);
    if all.len() > cap {
        all.subrange(1, all.len() as int)
    } else {
        all
    }
}

/// Streaming occupancy estimator with hysteresis.
pub struct OccupancyEstimator {
    params: ClassifierParams,
    state: OccupancyState,
    pending: OccupancyState,
    hold: u32,
    last_energy: F32Bits,
    history: Vec<OccupancyState>,
}

impl OccupancyEstimator {
    pub closed spec fn params(self) -> ClassifierParams {
        self.params
    }

    pub closed spec fn hysteresis(self) -> Hysteresis {
        Hysteresis { state: self.state, pending: self.pending, hold: self.hold as nat }
    }

    pub closed spec fn history(self) -> Seq<OccupancyState> {
        self.history@
    }

    pub closed spec fn last_energy(self) -> F32Bits {
        self.last_energy
    }

    /// An estimator that has seen no frame.
    pub fn new(params: ClassifierParams) -> (e: Self)
        ensures
            e.params() == params,
            e.hysteresis() == undecided(),
            e.history() == Seq::<OccupancyState>::empty(),
            e.last_energy() == 0,
    {
        OccupancyEstimator {
            params,
            state: OccupancyState::Unknown,
            pending: OccupancyState::Unknown,
            hold: 0,
            last_energy: 0,
            history: Vec::new(),
        }
    }

    /// The committed state.
    pub fn state(&self) -> (s: OccupancyState)
        ensures
            s == self.hysteresis().state,
    {
        self.state
    }

    /// Takes one frame: both links' features and their fused metrics.
    pub fn update(
        &mut self,
        r1: &LinkFeatures,
        r2: &LinkFeatures,
        metrics: &FusionMetrics,
    ) -> (v: Verdict)
        requires
            old(self).hysteresis().hold < u32::MAX,
        ensures
            v.candidate == frame_candidate(old(self).params(), *r1, *r2, *metrics),
            final(self).hysteresis() == stepped(
                old(self).hysteresis(),
                v.candidate,
                old(self).params().hold_frames as nat,
            ),
            final(self).params() == old(self).params(),
            final(self).history() == slid(
                old(self).history(),
                HISTORY_LEN as nat,
                final(self).hysteresis().state,
            ),
            final(self).last_energy() == metrics.fused_energy,
            v.state == final(self).hysteresis().state,
            v.hold == final(self).hysteresis().hold,
            v.dev == larger(r1.baseline_dev, r2.baseline_dev),
            v.energy == metrics.fused_energy,
            v.metrics == *metrics,
            v.candidate != OccupancyState::Unknown,
            (v.candidate == OccupancyState::StrongMovement || v.candidate
                == OccupancyState::ComplexMovement) == greater(
                metrics.fused_energy,
                old(self).params().strong_thresh,
            ),
            (v.candidate == OccupancyState::Movement) == (greater(
                metrics.fused_energy,
                old(self).params().move_thresh,
            ) && !greater(metrics.fused_energy, old(self).params().strong_thresh)),
            final(self).hysteresis().state != old(self).hysteresis().state
                ==> final(self).hysteresis().state == v.candidate && v.hold
                >= old(self).params().hold_frames,
            final(self).history().last() == v.state,
    {
        let energy: F32Bits = metrics.fused_energy;
        let dev: F32Bits = larger_of(r1.baseline_dev, r2.baseline_dev);
        let candidate = if exceeds(energy, self.params.strong_thresh) {
            if exceeds(r1.spectral_entropy, DIFFUSE_ENTROPY) || exceeds(
                r2.spectral_entropy,
                DIFFUSE_ENTROPY,
            ) {
                OccupancyState::ComplexMovement
            } else {
                OccupancyState::StrongMovement
            }
        } else if exceeds(energy, self.params.move_thresh) {
            OccupancyState::Movement
        } else if exceeds(dev, self.params.static_thresh) {
            if exceeds(energy, self.params.empty_thresh) {
                OccupancyState::PossiblePresence
            } else {
                OccupancyState::StaticPresence
            }
        } else if exceeds(energy, self.params.empty_thresh) {
            OccupancyState::PossiblePresence
        } else {
            OccupancyState::Empty
        };
        if candidate == self.pending {
            self.hold = self.hold + 1;
        } else {
            self.pending = candidate;
            self.hold = 1;
        }
        self.last_energy = energy;
        if self.hold >= self.params.hold_frames && self.state != self.pending {
            self.state = self.pending;
        }
        self.history.push(self.state);
        if self.history.len() > HISTORY_LEN {
            self.history.remove(0);
            assert(self.history@ =~= slid(old(self).history@, HISTORY_LEN as nat, self.state));
        }
        Verdict { state: self.state, candidate, dev, energy, hold: self.hold, metrics: *metrics }
    }

    /// Forgets everything but the thresholds.
    pub fn reset(&mut self)
        ensures
            final(self).params() == old(self).params(),
            final(self).last_energy() == old(self).last_energy(),
            final(self).hysteresis() == undecided(),
            final(self).history() == Seq::<OccupancyState>::empty(),
    {
        self.state = OccupancyState::Unknown;
        self.pending = OccupancyState::Unknown;
        self.hold = 0;
        self.history.clear();
    }
}

impl Default for OccupancyEstimator {
    fn default() -> (e: Self)
        ensures
            e.params() == default_params(),
            e.hysteresis() == undecided(),
            e.history() == Seq::<OccupancyState>::empty(),
            e.last_energy() == 0,
    {
        OccupancyEstimator::new(ClassifierParams::default())
    }
}

/// The last `cap` energies of both links, oldest first: the window over which
/// the links are correlated.
pub struct Fuser {
    buf: Vec<(F32Bits, F32Bits)>,
    cap: usize,
}

impl Fuser {
    pub closed spec fn window(self) -> Seq<(F32Bits, F32Bits)> {
        self.buf@
    }

    pub closed spec fn cap(self) -> nat {
        self.cap as nat
    }

    /// A window of at least two pairs.
    pub fn new(cap: usize) -> (f: Self)
        ensures
            f.window() == Seq::<(F32Bits, F32Bits)>::empty(),
            f.cap() == (if cap < 2 {
                2
            } else {
                cap as nat
            }),
    {
        Fuser {
            buf: Vec::new(),
            cap: if cap < 2 {
                2
            } else {
                cap
            },
        }
    }

    /// Adds one frame's energies.
    pub fn push(&mut self, e1: F32Bits, e2: F32Bits)
        ensures
            final(self).window() == slid(old(self).window(), old(self).cap(), (e1, e2)),
            final(self).cap() == old(self).cap(),
    {
        self.buf.push((e1, e2));
        if self.buf.len() > self.cap {
            self.buf.remove(0);
            assert(self.buf@ =~= slid(old(self).buf@, self.cap as nat, (e1, e2)));
        }
    }

    /// The pairs in the window.
    pub fn pairs(&self) -> (p: &[(F32Bits, F32Bits)])
        ensures
            p@ == self.window(),
    {
        self.buf.as_slice()
    }
}

} // verus!

//! The controller of the head: where each received frame goes, when the head
//! commissions itself, and which pair of reports is fused next.

use vstd::prelude::*;

use crate::features::{features_from_report, report_features, slid, LinkFeatures};
use crate::protocol::payloads::{
    cal_resp_at, feature_report_at, parse_cal_resp, parse_csi_snapshot,
    parse_feature_report,
};
use crate::protocol::{frame_type, node, FeatureReport};
use crate::transmitter::calibrate::{idle_view, responded, CalView, Calibrator};
use crate::transmitter::rings::{fitted, SnapshotRing, RING_CAP};
use crate::transport::pairer::{pair_taken, pushed, PairedFrames};
use crate::transport::tracker::{tracker_start, tracker_step};
use crate::transport::{Pairer, SequenceTracker};

verus! {

/// How long the head waits for both receivers before it commissions itself
/// with whichever it hears.
pub const BOOT_AUTO_CAL_DELAY_US: u64 = 20_000_000;

/// What the controller knows of one receiver.
pub struct LinkState {
    /// A report was heard.
    pub seen: bool,
    pub track: SequenceTracker,
    pub report: Option<FeatureReport>,
    pub features: LinkFeatures,
    pub ring: SnapshotRing,
}

impl LinkState {
    /// The parts are well formed.
    pub open spec fn wf(self) -> bool {
        self.track.well_formed() && self.ring.wf()
    }

    /// Nothing was heard.
    pub open spec fn unheard(self) -> bool {
        &&& !self.seen
        &&& self.track@ == tracker_start()
        &&& self.report is None
        &&& self.features == (LinkFeatures {
            motion_energy: 0,
            baseline_dev: 0,
            spectral_entropy: 0,
            dominant_freq_hz: 0,
            rssi: 0,
            sat_score: 0,
            pca0: 0,
            pca1: 0,
            amp_std: 0,
        })
        &&& self.ring.amp_columns() == Seq::<Seq<u8>>::empty()
        &&& self.ring.spec_columns() == Seq::<Seq<u8>>::empty()
    }

    fn new() -> (l: Self)
        ensures
            l.wf(),
            l.unheard(),
    {
        LinkState {
            seen: false,
            track: SequenceTracker::new(),
            report: None,
            features: LinkFeatures::default(),
            ring: SnapshotRing::new(),
        }
    }
}

/// A receiver's state after a report numbered `seq`.
pub open spec fn heard(before: LinkState, after: LinkState, seq: u32, r: FeatureReport) -> bool {
    &&& after.seen
    &&& after.track@ == tracker_step(before.track@, seq)
    &&& after.report == Some(r)
    &&& after.features == report_features(r)
    &&& after.ring == before.ring
}

/// A receiver's state after a snapshot.
pub open spec fn pictured(before: LinkState, after: LinkState, amp: Seq<u8>, spec: Seq<u8>) -> bool {
    &&& after.seen == before.seen
    &&& after.track == before.track
    &&& after.report == before.report
    &&& after.features == before.features
    &&& after.ring.amp_columns() == slid(
        before.ring.amp_columns(),
        RING_CAP as nat,
        fitted(amp, 56),
    )
    &&& after.ring.spec_columns() == slid(
        before.ring.spec_columns(),
        RING_CAP as nat,
        fitted(spec, 64),
    )
}

/// The controller.
pub struct Controller {
    pub rx1: LinkState,
    pub rx2: LinkState,
    pub pairer: Pairer,
    pub cal: Calibrator,
    /// The boot-time commissioning was triggered, or is not needed.
    pub auto_cal_sent: bool,
}

/// Where a received frame goes: a report to its link and to the pairer, a
/// calibration response to the calibration, a snapshot to its link's ring; a
/// frame of another kind or with too short a payload goes nowhere.
pub open spec fn routed(
    before: Controller,
    after: Controller,
    kind: u8,
    src: u8,
    seq: u32,
    payload: Seq<u8>,
    now: u64,
) -> bool {
    &&& after.auto_cal_sent == before.auto_cal_sent
    &&& if kind == frame_type::FEATURE_REPORT && payload.len() >= 79 {
        &&& after.cal == before.cal
        &&& exists|r: FeatureReport| #[trigger]
            feature_report_at(payload, r) && pushed(&before.pairer, &after.pairer, src, r, now) && (
            if src == node::RX1 {
                heard(before.rx1, after.rx1, seq, r) && after.rx2 == before.rx2
            } else if src == node::RX2 {
                heard(before.rx2, after.rx2, seq, r) && after.rx1 == before.rx1
            } else {
                after.rx1 == before.rx1 && after.rx2 == before.rx2
            })
    } else if kind == frame_type::CAL_RESP && payload.len() >= 17 {
        &&& after.rx1 == before.rx1
        &&& after.rx2 == before.rx2
        &&& after.pairer == before.pairer
        &&& after.cal@ == responded(before.cal@, src, cal_resp_at(payload))
    } else if kind == frame_type::CSI_SNAPSHOT && payload.len() >= 359 {
        let (amp, spec) = (payload.subrange(239, 295), payload.subrange(295, 359));
        &&& after.pairer == before.pairer
        &&& after.cal == before.cal
        &&& if src == node::RX1 {
            pictured(before.rx1, after.rx1, amp, spec) && after.rx2 == before.rx2
        } else if src == node::RX2 {
            pictured(before.rx2, after.rx2, amp, spec) && after.rx1 == before.rx1
        } else {
            after.rx1 == before.rx1 && after.rx2 == before.rx2
        }
    } else {
        after == before
    }
}

/// The features of a pair become the latest ones of their links.
pub open spec fn features_moved_on(
    before: Controller,
    after: Controller,
    p: Option<PairedFrames>,
    r: Option<(LinkFeatures, LinkFeatures)>,
) -> bool {
    match p {
        None => r is None && after.rx1 == before.rx1 && after.rx2 == before.rx2,
        Some(pair) => {
            let (f1, f2) = (report_features(pair.rx1), report_features(pair.rx2));
            &&& r == Some((f1, f2))
            &&& after.rx1 == (LinkState { features: f1, ..before.rx1 })
            &&& after.rx2 == (LinkState { features: f2, ..before.rx2 })
        },
    }
}

/// What taking the next pair does to the controller: the pairer moves on, and
/// so do the features of the links.
pub open spec fn paired_up(
    before: Controller,
    after: Controller,
    now: u64,
    r: Option<(LinkFeatures, LinkFeatures)>,
) -> bool {
    &&& after.cal == before.cal
    &&& after.auto_cal_sent == before.auto_cal_sent
    &&& exists|p: Option<PairedFrames>| #[trigger]
        pair_taken(&before.pairer, &after.pairer, now, p) && features_moved_on(before, after, p, r)
}

/// A received frame concerns one link at most, the one it came from, and only
/// reports reach the pairer, only responses the calibration.
pub proof fn frames_concern_their_own_link(
    before: Controller,
    after: Controller,
    kind: u8,
    src: u8,
    seq: u32,
    payload: Seq<u8>,
    now: u64,
)
    requires
        routed(before, after, kind, src, seq, payload, now),
    ensures
        src != 2 ==> after.rx1 == before.rx1,
        src != 3 ==> after.rx2 == before.rx2,
        kind != frame_type::FEATURE_REPORT ==> {
            &&& after.pairer == before.pairer
            &&& after.rx1.report == before.rx1.report && after.rx2.report == before.rx2.report
            &&& after.rx1.features == before.rx1.features
            &&& after.rx2.features == before.rx2.features
            &&& after.rx1.track == before.rx1.track && after.rx2.track == before.rx2.track
            &&& after.rx1.seen == before.rx1.seen && after.rx2.seen == before.rx2.seen
        },
        kind != frame_type::CAL_RESP ==> after.cal == before.cal,
        kind != frame_type::CSI_SNAPSHOT ==> after.rx1.ring == before.rx1.ring && after.rx2.ring
            == before.rx2.ring,
        after.auto_cal_sent == before.auto_cal_sent,
{
}

/// A report that was heard is its link's latest: with the report the link's
/// features, and its sequence number observed.
pub proof fn reports_become_the_latest(
    before: Controller,
    after: Controller,
    src: u8,
    seq: u32,
    payload: Seq<u8>,
    now: u64,
)
    requires
        routed(before, after, frame_type::FEATURE_REPORT, src, seq, payload, now),
        payload.len() >= 79,
        src == 2 || src == 3,
    ensures
        ({
            let (link, old_link) = if src == 2 {
                (after.rx1, before.rx1)
            } else {
                (after.rx2, before.rx2)
            };
            &&& link.seen
            &&& link.report is Some && feature_report_at(payload, link.report->0)
            &&& link.features.motion_energy == link.report->0.motion_energy
            &&& link.features.baseline_dev == link.report->0.baseline_dev
            &&& link.features.spectral_entropy == link.report->0.spectral_entropy
            &&& link.features.rssi == link.report->0.rssi
            &&& link.track@.expected == Some(((seq + 1) % 0x1_0000_0000) as u32)
            &&& link.track@.total >= old_link.track@.total + 1
        }),
{
}

/// What is fused next are the two reports of one pair, the first link's with
/// the second's, and they become the links' latest features.
pub proof fn fused_features_are_those_of_a_pair(
    before: Controller,
    after: Controller,
    now: u64,
    r: Option<(LinkFeatures, LinkFeatures)>,
)
    requires
        paired_up(before, after, now, r),
    ensures
        r is None ==> after.rx1 == before.rx1 && after.rx2 == before.rx2 && after.pairer.pairs_total
            == before.pairer.pairs_total,
        r matches Some((f1, f2)) ==> {
            &&& after.rx1.features == f1 && after.rx2.features == f2
            &&& after.rx1.report == before.rx1.report && after.rx2.report == before.rx2.report
            &&& after.pairer.pairs_total == before.pairer.pairs_total + 1
            &&& exists|p: PairedFrames| #[trigger]
                pair_taken(&before.pairer, &after.pairer, now, Some(p)) && f1.motion_energy
                    == p.rx1.motion_energy && f2.motion_energy == p.rx2.motion_energy
                    && f1.baseline_dev == p.rx1.baseline_dev && f2.baseline_dev
                    == p.rx2.baseline_dev && f1.spectral_entropy == p.rx1.spectral_entropy
                    && f2.spectral_entropy == p.rx2.spectral_entropy
        },
{
    let p = choose|p: Option<PairedFrames>| #[trigger]
        pair_taken(&before.pairer, &after.pairer, now, p) && features_moved_on(before, after, p, r);
    if r is Some {
        assert(p == Some(p->0));
        assert(pair_taken(&before.pairer, &after.pairer, now, Some(p->0)));
    }
}

impl Controller {
    /// The parts are well formed.
    pub open spec fn wf(self) -> bool {
        &&& self.rx1.wf()
        &&& self.rx2.wf()
        &&& self.pairer.well_formed()
        &&& self.cal.wf()
    }

    /// A controller that has heard nothing. `tx_power_db` is the configured
    /// power, 0 if it was never commissioned; `has_model` tells whether a
    /// power model is stored.
    pub fn new(pair_tolerance: u16, tx_power_db: u8, has_model: bool) -> (c: Self)
        ensures
            c.wf(),
            c.rx1.unheard(),
            c.rx2.unheard(),
            c.pairer.unused(pair_tolerance as u32),
            c.cal@ == (CalView { has_model, ..idle_view() }),
            c.auto_cal_sent == (tx_power_db != 0),
    {
        let mut cal = Calibrator::new();
        cal.mark_commissioned(has_model);
        Controller {
            rx1: LinkState::new(),
            rx2: LinkState::new(),
            pairer: Pairer::new(pair_tolerance as u32),
            cal,
            auto_cal_sent: tx_power_db != 0,
        }
    }

    /// Whether both receivers were heard.
    pub fn radar_active(&self) -> (a: bool)
        ensures
            a == (self.rx1.seen && self.rx2.seen),
    {
        self.rx1.seen && self.rx2.seen
    }

    /// Whether to commission now, `elapsed_us` after boot: once, on a head
    /// that was never commissioned, when both receivers were heard or the
    /// delay is over.
    pub fn auto_commission(&mut self, elapsed_us: u64) -> (due: bool)
        requires
            old(self).wf(),
        ensures
            final(self).wf(),
            due == (!old(self).auto_cal_sent && (elapsed_us >= BOOT_AUTO_CAL_DELAY_US || (old(
                self,
            ).rx1.seen && old(self).rx2.seen))),
            *final(self) == (Controller {
                auto_cal_sent: old(self).auto_cal_sent || due,
                ..*old(self)
            }),
            old(self).auto_cal_sent ==> !due,
            elapsed_us < 20_000_000 && (!old(self).rx1.seen || !old(self).rx2.seen) ==> !due,
            due ==> final(self).auto_cal_sent,
            !final(self).auto_cal_sent ==> elapsed_us < 20_000_000 && !(final(self).rx1.seen
                && final(self).rx2.seen),
    {
        let due = !self.auto_cal_sent && (elapsed_us >= BOOT_AUTO_CAL_DELAY_US
            || self.radar_active());
        if due {
            self.auto_cal_sent = true;
        }
        due
    }

    /// Takes a frame from a wired link. Which link it came on does not matter:
    /// the header names its source.
    pub fn route(&mut self, kind: u8, src: u8, seq: u32, payload: &[u8], now: u64)
        requires
            old(self).wf(),
            kind == frame_type::FEATURE_REPORT && payload@.len() >= 79 && src == node::RX1
                ==> tracker_step(old(self).rx1.track@, seq).total <= u64::MAX,
            kind == frame_type::FEATURE_REPORT && payload@.len() >= 79 && src == node::RX2
                ==> tracker_step(old(self).rx2.track@, seq).total <= u64::MAX,
        ensures
            final(self).wf(),
            routed(*old(self), *final(self), kind, src, seq, payload@, now),
    {
        if kind == frame_type::FEATURE_REPORT {
            match parse_feature_report(payload) {
                None => {},
                Some(report) => {
                    if src == node::RX1 {
                        self.rx1.seen = true;
                        self.rx1.track.observe(seq);
                        self.rx1.report = Some(report);
                        self.rx1.features = features_from_report(&report);
                    } else if src == node::RX2 {
                        self.rx2.seen = true;
                        self.rx2.track.observe(seq);
                        self.rx2.report = Some(report);
                        self.rx2.features = features_from_report(&report);
                    }
                    self.pairer.push(src, report, now);
                    assert(feature_report_at(payload@, report));
                },
            }
        } else if kind == frame_type::CAL_RESP {
            match parse_cal_resp(payload) {
                None => {},
                Some(resp) => self.cal.on_resp(src, resp),
            }
        } else if kind == frame_type::CSI_SNAPSHOT {
            match parse_csi_snapshot(payload) {
                None => {},
                Some(snap) => {
                    if src == node::RX1 {
                        self.rx1.ring.push(snap.amp_norm.as_slice(), snap.spec.as_slice());
                    } else if src == node::RX2 {
                        self.rx2.ring.push(snap.amp_norm.as_slice(), snap.spec.as_slice());
                    }
                },
            }
        }
    }

    /// The features of the next pair of reports, which become the latest ones
    /// of their links.
    pub fn next_pair(&mut self, now: u64) -> (r: Option<(LinkFeatures, LinkFeatures)>)
        requires
            old(self).wf(),
            old(self).pairer.pairs_total < u64::MAX,
            old(self).pairer.dropped_unpaired + 128 <= u64::MAX,
            old(self).pairer.pair_rate@.total < u64::MAX,
        ensures
            final(self).wf(),
            paired_up(*old(self), *final(self), now, r),
    {
        let taken = self.pairer.next_pair(now);
        let r = match taken {
            None => None,
            Some(pair) => {
                let f1 = features_from_report(&pair.rx1);
                let f2 = features_from_report(&pair.rx2);
                self.rx1.features = f1;
                self.rx2.features = f2;
                Some((f1, f2))
            },
        };
        assert(pair_taken(&old(self).pairer, &self.pairer, now, taken) && features_moved_on(
            *old(self),
            *self,
            taken,
            r,
        ));
        r
    }
}

} // verus!

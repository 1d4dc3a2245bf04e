//! Assembly of the live status.

use vstd::prelude::*;

use crate::arith::{low_byte, low_i8};
use crate::features::{FusionMetrics, LinkFeatures, OccupancyState};
use crate::protocol::FeatureReport;
use crate::single::{at_least, larger, larger_of, not_below};
use crate::web::telemetry::{StatusFrame, StatusSnapshot};

verus! {

/// The occupancy estimate in a status.
#[derive(Clone, Copy, Debug, PartialEq, Eq, Structural)]
pub struct Estimate {
    pub state: OccupancyState,
    /// 0..=100.
    pub confidence_pct: u8,
    pub metrics: FusionMetrics,
}

/// The estimate before the first pair.
pub open spec fn no_estimate() -> Estimate {
    Estimate {
        state: OccupancyState::Unknown,
        confidence_pct: 0,
        metrics: FusionMetrics {
            fused_energy: 0,
            cross_link_corr: 0,
            activity_ratio: 0,
            differential_rms: 0,
            pca_spectral_entropy: 0,
        },
    }
}

/// What a status is made of.
#[derive(Clone, Copy, Debug)]
pub struct StatusInputs {
    pub t_us: u64,
    pub tx_power: u8,
    /// Latest report of each link.
    pub rep1: Option<FeatureReport>,
    pub rep2: Option<FeatureReport>,
    /// Latest features of each link.
    pub lf1: LinkFeatures,
    pub lf2: LinkFeatures,
    /// Dominant frequencies of the links, whole Hz.
    pub dominant1: u16,
    pub dominant2: u16,
    pub estimate: Option<Estimate>,
    /// Delivery of the worse link, 0..=100.
    pub delivery_pct: u8,
    pub paired_frames_s: u16,
}

/// The next status number.
pub open spec fn next_seq(seq: u32) -> u32 {
    if seq == u32::MAX {
        0
    } else {
        (seq + 1) as u32
    }
}

/// A report's field, or 0 without a report.
pub open spec fn field_or_zero(r: Option<FeatureReport>, f: spec_fn(FeatureReport) -> u8) -> u8 {
    match r {
        Some(rep) => f(rep),
        None => 0,
    }
}

/// The low byte of a report's signal strength, or 0 without a report.
pub open spec fn rssi_byte(r: Option<FeatureReport>) -> i8 {
    match r {
        Some(rep) => low_byte(rep.rssi as int),
        None => 0,
    }
}

/// The status of the given inputs, numbered `seq`. Frequency and components
/// are those of the link with more motion energy.
pub open spec fn status_of(i: StatusInputs, seq: u32) -> StatusFrame {
    let est = match i.estimate {
        Some(e) => e,
        None => no_estimate(),
    };
    let first = not_below(i.lf1.motion_energy, i.lf2.motion_energy);
    StatusFrame {
        seq,
        t_us: i.t_us,
        occupancy: est.state,
        confidence: est.confidence_pct,
        tx_power_db: low_byte(i.tx_power as int),
        rssi_rx1: rssi_byte(i.rep1),
        rssi_rx2: rssi_byte(i.rep2),
        csi_quality_rx1: field_or_zero(i.rep1, |r: FeatureReport| r.csi_quality),
        csi_quality_rx2: field_or_zero(i.rep2, |r: FeatureReport| r.csi_quality),
        sat_score_rx1: field_or_zero(i.rep1, |r: FeatureReport| r.sat_score),
        sat_score_rx2: field_or_zero(i.rep2, |r: FeatureReport| r.sat_score),
        dyn_range_rx1: field_or_zero(i.rep1, |r: FeatureReport| r.dyn_range),
        dyn_range_rx2: field_or_zero(i.rep2, |r: FeatureReport| r.dyn_range),
        packet_delivery_pct: i.delivery_pct,
        paired_frames_s: i.paired_frames_s,
        motion_energy_rx1: i.lf1.motion_energy,
        motion_energy_rx2: i.lf2.motion_energy,
        motion_energy_fused: est.metrics.fused_energy,
        spectral_entropy: larger(i.lf1.spectral_entropy, i.lf2.spectral_entropy),
        dominant_freq_hz: if first {
            i.dominant1
        } else {
            i.dominant2
        },
        pca1: if first {
            i.lf1.pca0
        } else {
            i.lf2.pca0
        },
        pca2: if first {
            i.lf1.pca1
        } else {
            i.lf2.pca1
        },
        correlation: est.metrics.cross_link_corr,
        differential: est.metrics.differential_rms,
    }
}

/// What a status shows of one link: 0 throughout without a report, and else
/// what the report says, the signal strength as its low byte; and the motion
/// energy of the link's features.
pub open spec fn shows_link(
    rssi: i8,
    csi_quality: u8,
    sat_score: u8,
    dyn_range: u8,
    motion_energy: u32,
    rep: Option<FeatureReport>,
    lf: LinkFeatures,
) -> bool {
    &&& motion_energy == lf.motion_energy
    &&& rep is None ==> rssi == 0 && csi_quality == 0 && sat_score == 0 && dyn_range == 0
    &&& rep matches Some(r) ==> {
        &&& -128 <= r.rssi <= 127 ==> rssi == r.rssi
        &&& (r.rssi - rssi) % 256 == 0
        &&& csi_quality == r.csi_quality
        &&& sat_score == r.sat_score
        &&& dyn_range == r.dyn_range
    }
}

/// A status shows each link as that link was heard: its own report and its own
/// motion energy.
pub proof fn each_link_is_shown_as_heard(i: StatusInputs, seq: u32)
    ensures
        ({
            let f = status_of(i, seq);
            &&& shows_link(
                f.rssi_rx1,
                f.csi_quality_rx1,
                f.sat_score_rx1,
                f.dyn_range_rx1,
                f.motion_energy_rx1,
                i.rep1,
                i.lf1,
            )
            &&& shows_link(
                f.rssi_rx2,
                f.csi_quality_rx2,
                f.sat_score_rx2,
                f.dyn_range_rx2,
                f.motion_energy_rx2,
                i.rep2,
                i.lf2,
            )
        }),
{
}

/// What a status shows of a link does not depend on the other link.
pub proof fn links_are_shown_apart(i: StatusInputs, j: StatusInputs, seq: u32)
    ensures
        i.rep1 == j.rep1 && i.lf1 == j.lf1 ==> {
            let (f, g) = (status_of(i, seq), status_of(j, seq));
            &&& f.rssi_rx1 == g.rssi_rx1
            &&& f.csi_quality_rx1 == g.csi_quality_rx1
            &&& f.sat_score_rx1 == g.sat_score_rx1
            &&& f.dyn_range_rx1 == g.dyn_range_rx1
            &&& f.motion_energy_rx1 == g.motion_energy_rx1
        },
        i.rep2 == j.rep2 && i.lf2 == j.lf2 ==> {
            let (f, g) = (status_of(i, seq), status_of(j, seq));
            &&& f.rssi_rx2 == g.rssi_rx2
            &&& f.csi_quality_rx2 == g.csi_quality_rx2
            &&& f.sat_score_rx2 == g.sat_score_rx2
            &&& f.dyn_range_rx2 == g.dyn_range_rx2
            &&& f.motion_energy_rx2 == g.motion_energy_rx2
        },
{
}

/// What a status shows of both links together: frequency and components are
/// those of the link that moves more, the first one on a tie, and the second
/// where the energies do not compare; the entropy exceeds exactly the bounds
/// that one of the links' entropies exceeds.
pub proof fn livelier_link_is_shown(i: StatusInputs, seq: u32, bound: u32)
    ensures
        ({
            let f = status_of(i, seq);
            let (a, b) = (i.lf1.motion_energy, i.lf2.motion_energy);
            let comparable = !crate::single::is_nan(a) && !crate::single::is_nan(b);
            let first = comparable && !crate::single::greater(b, a);
            &&& first ==> f.dominant_freq_hz == i.dominant1 && f.pca1 == i.lf1.pca0 && f.pca2
                == i.lf1.pca1
            &&& !first ==> f.dominant_freq_hz == i.dominant2 && f.pca1 == i.lf2.pca0 && f.pca2
                == i.lf2.pca1
            &&& f.spectral_entropy == i.lf1.spectral_entropy || f.spectral_entropy
                == i.lf2.spectral_entropy
            &&& crate::single::greater(f.spectral_entropy, bound) == (crate::single::greater(
                i.lf1.spectral_entropy,
                bound,
            ) || crate::single::greater(i.lf2.spectral_entropy, bound))
        }),
{
}

/// What a status shows of the radar: the estimate with its fused metrics, or
/// an unknown state without one, under the given number, time, power, delivery
/// and pair rate.
pub proof fn status_shows_the_estimate(i: StatusInputs, seq: u32)
    ensures
        ({
            let f = status_of(i, seq);
            &&& f.seq == seq
            &&& f.t_us == i.t_us
            &&& i.tx_power <= 127 ==> f.tx_power_db == i.tx_power
            &&& f.packet_delivery_pct == i.delivery_pct
            &&& f.paired_frames_s == i.paired_frames_s
            &&& i.estimate matches Some(e) ==> {
                &&& f.occupancy == e.state
                &&& f.confidence == e.confidence_pct
                &&& f.motion_energy_fused == e.metrics.fused_energy
                &&& f.correlation == e.metrics.cross_link_corr
                &&& f.differential == e.metrics.differential_rms
            }
            &&& i.estimate is None ==> {
                &&& f.occupancy == OccupancyState::Unknown
                &&& f.confidence == 0
                &&& f.motion_energy_fused == 0
                &&& f.correlation == 0
                &&& f.differential == 0
            }
        }),
{
}

/// Statuses are numbered in turn.
pub proof fn status_numbers_follow_on(seq: u32)
    ensures
        next_seq(seq) == (seq + 1) % 0x1_0000_0000,
{
}

struct LinkFields {
    rssi: i8,
    quality: u8,
    sat: u8,
    dyn_range: u8,
}

fn link_fields(r: &Option<FeatureReport>) -> (f: LinkFields)
    ensures
        f.rssi == rssi_byte(*r),
        f.quality == field_or_zero(*r, |r: FeatureReport| r.csi_quality),
        f.sat == field_or_zero(*r, |r: FeatureReport| r.sat_score),
        f.dyn_range == field_or_zero(*r, |r: FeatureReport| r.dyn_range),
{
    match r {
        Some(rep) => LinkFields {
            rssi: low_i8(rep.rssi as i64),
            quality: rep.csi_quality,
            sat: rep.sat_score,
            dyn_range: rep.dyn_range,
        },
        None => LinkFields { rssi: 0, quality: 0, sat: 0, dyn_range: 0 },
    }
}

/// Makes the next status.
pub fn make_status(i: &StatusInputs, status_seq: &mut u32) -> (f: StatusFrame)
    ensures
        *final(status_seq) == next_seq(*old(status_seq)),
        f == status_of(*i, next_seq(*old(status_seq))),
        f.seq == *final(status_seq),
        f.motion_energy_rx1 == i.lf1.motion_energy,
        f.motion_energy_rx2 == i.lf2.motion_energy,
        i.rep1 matches Some(r) ==> f.csi_quality_rx1 == r.csi_quality && f.sat_score_rx1
            == r.sat_score && f.dyn_range_rx1 == r.dyn_range,
        i.rep2 matches Some(r) ==> f.csi_quality_rx2 == r.csi_quality && f.sat_score_rx2
            == r.sat_score && f.dyn_range_rx2 == r.dyn_range,
        i.estimate matches Some(e) ==> f.occupancy == e.state && f.confidence == e.confidence_pct
            && f.motion_energy_fused == e.metrics.fused_energy,
{
    *status_seq = if *status_seq == u32::MAX {
        0
    } else {
        *status_seq + 1
    };
    let (state, confidence, metrics) = match i.estimate {
        Some(e) => (e.state, e.confidence_pct, e.metrics),
        None => (OccupancyState::Unknown, 0, FusionMetrics::default()),
    };
    let l1 = link_fields(&i.rep1);
    let l2 = link_fields(&i.rep2);
    let first = at_least(i.lf1.motion_energy, i.lf2.motion_energy);
    StatusFrame {
        seq: *status_seq,
        t_us: i.t_us,
        occupancy: state,
        confidence,
        tx_power_db: low_i8(i.tx_power as i64),
        rssi_rx1: l1.rssi,
        rssi_rx2: l2.rssi,
        csi_quality_rx1: l1.quality,
        csi_quality_rx2: l2.quality,
        sat_score_rx1: l1.sat,
        sat_score_rx2: l2.sat,
        dyn_range_rx1: l1.dyn_range,
        dyn_range_rx2: l2.dyn_range,
        packet_delivery_pct: i.delivery_pct,
        paired_frames_s: i.paired_frames_s,
        motion_energy_rx1: i.lf1.motion_energy,
        motion_energy_rx2: i.lf2.motion_energy,
        motion_energy_fused: metrics.fused_energy,
        spectral_entropy: larger_of(i.lf1.spectral_entropy, i.lf2.spectral_entropy),
        dominant_freq_hz: if first {
            i.dominant1
        } else {
            i.dominant2
        },
        pca1: if first {
            i.lf1.pca0
        } else {
            i.lf2.pca0
        },
        pca2: if first {
            i.lf1.pca1
        } else {
            i.lf2.pca1
        },
        correlation: metrics.cross_link_corr,
        differential: metrics.differential_rms,
    }
}

/// Publishes a status with the state of the calibration.
pub fn publish(
    snap: &mut StatusSnapshot,
    frame: StatusFrame,
    cal_stage: u8,
    cal_active: bool,
    radar_active: bool,
)
    ensures
        *final(snap) == (StatusSnapshot {
            frame,
            cal_stage,
            cal_active,
            radar_active,
            ..*old(snap)
        }),
{
    snap.frame = frame;
    snap.cal_stage = cal_stage;
    snap.cal_active = cal_active;
    snap.radar_active = radar_active;
}

} // verus!

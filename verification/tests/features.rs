use esp_radar::features::{
    features_from_report, ClassifierParams, FusionMetrics, Fuser, LinkFeatures, OccupancyEstimator,
    OccupancyState,
};
use esp_radar::protocol::payloads::FeatureReport;

fn quiet_link() -> LinkFeatures {
    LinkFeatures {
        motion_energy: 0.01f32.to_bits(),
        baseline_dev: 0.1f32.to_bits(),
        spectral_entropy: 0.3f32.to_bits(),
        ..Default::default()
    }
}

fn moving_link(e: f32) -> LinkFeatures {
    LinkFeatures {
        motion_energy: e.to_bits(),
        baseline_dev: 0.2f32.to_bits(),
        spectral_entropy: 0.4f32.to_bits(),
        ..Default::default()
    }
}

// Two links with the same constant energy: no correlation is defined, and the
// fused energy is the mean of the two.
fn metrics_of(fuser: &Fuser) -> FusionMetrics {
    let (e1, e2) = fuser.pairs()[fuser.pairs().len() - 1];
    let (e1, e2) = (f32::from_bits(e1), f32::from_bits(e2));
    let fused = if fuser.pairs().len() < 2 { e1.max(e2) } else { e1 * 0.5 + e2 * 0.5 };
    FusionMetrics { fused_energy: fused.to_bits(), ..Default::default() }
}

fn settle(link: &LinkFeatures, energy: f32) -> OccupancyState {
    let mut est = OccupancyEstimator::default();
    let mut fuser = Fuser::new(16);
    let mut last = OccupancyState::Unknown;
    for _ in 0..20 {
        fuser.push(energy.to_bits(), energy.to_bits());
        last = est.update(link, link, &metrics_of(&fuser)).state;
    }
    assert_eq!(fuser.pairs().len(), 16);
    last
}

#[test]
fn empty_room_is_empty() {
    assert_eq!(settle(&quiet_link(), 0.01), OccupancyState::Empty);
}

#[test]
fn motion_escalates_to_movement() {
    assert_eq!(settle(&moving_link(0.8), 0.8), OccupancyState::Movement);
}

#[test]
fn static_presence_detected() {
    let mut s_link = quiet_link();
    s_link.baseline_dev = 3.0f32.to_bits();
    assert_eq!(settle(&s_link, 0.01), OccupancyState::StaticPresence);
}

#[test]
fn strong_and_diffuse_motion_is_complex() {
    assert_eq!(settle(&moving_link(3.0), 3.0), OccupancyState::StrongMovement);
    let mut diffuse = moving_link(3.0);
    diffuse.spectral_entropy = 0.8f32.to_bits();
    assert_eq!(settle(&diffuse, 3.0), OccupancyState::ComplexMovement);
    assert_eq!(settle(&quiet_link(), 0.3), OccupancyState::PossiblePresence);
}

#[test]
fn a_state_is_committed_after_the_hold() {
    let mut est = OccupancyEstimator::default();
    let m = FusionMetrics { fused_energy: 0.8f32.to_bits(), ..Default::default() };
    for i in 1..=6 {
        let v = est.update(&moving_link(0.8), &moving_link(0.8), &m);
        assert_eq!(v.candidate, OccupancyState::Movement);
        assert_eq!(v.hold, i);
        assert_eq!(v.state == OccupancyState::Movement, i == 6);
    }
    let quiet = FusionMetrics { fused_energy: 0.01f32.to_bits(), ..Default::default() };
    for _ in 0..5 {
        let v = est.update(&quiet_link(), &quiet_link(), &quiet);
        assert_eq!(v.state, OccupancyState::Movement);
    }
    assert_eq!(est.update(&quiet_link(), &quiet_link(), &quiet).state, OccupancyState::Empty);
    est.reset();
    assert_eq!(est.state(), OccupancyState::Unknown);
}

#[test]
fn features_come_from_the_report() {
    let mut r = FeatureReport { rssi: -48, sat_score: 9, ..Default::default() };
    r.motion_energy = 1.5f32.to_bits();
    r.pca_scores[0] = 0.25f32.to_bits();
    r.pca_scores[1] = 0.5f32.to_bits();
    let f = features_from_report(&r);
    assert_eq!((f.rssi, f.sat_score), (-48, 9));
    assert_eq!(f.motion_energy, 1.5f32.to_bits());
    assert_eq!((f.pca0, f.pca1), (0.25f32.to_bits(), 0.5f32.to_bits()));
}

#[test]
fn states_have_names() {
    assert_eq!(OccupancyState::Movement.text(), "MOVEMENT");
    assert_eq!(OccupancyState::Empty.text(), "EMPTY");
    assert_ne!(OccupancyState::Unknown.text(), OccupancyState::Empty.text());
}

#[test]
fn only_a_full_run_changes_the_state() {
    let moving = FusionMetrics { fused_energy: 0.8f32.to_bits(), ..Default::default() };
    let quiet = FusionMetrics { fused_energy: 0.01f32.to_bits(), ..Default::default() };
    let params = ClassifierParams { hold_frames: 3, ..Default::default() };
    let mut est = OccupancyEstimator::new(params);
    let (u, m, e) = (OccupancyState::Unknown, OccupancyState::Movement, OccupancyState::Empty);
    let frames = "mmqmmmqqmqqqm";
    let states = [u, u, u, u, u, m, m, m, m, m, m, e, e];
    for (c, want) in frames.chars().zip(states) {
        let (link, metrics) =
            if c == 'm' { (moving_link(0.8), moving) } else { (quiet_link(), quiet) };
        let v = est.update(&link, &link, &metrics);
        assert_eq!(v.candidate, if c == 'm' { m } else { e });
        assert_eq!(v.metrics, metrics);
        assert_eq!(v.state, want);
        assert_eq!(est.state(), want);
    }

    // Without a hold time, every frame decides.
    let params = ClassifierParams { hold_frames: 0, ..Default::default() };
    let mut est = OccupancyEstimator::new(params);
    assert_eq!(est.update(&quiet_link(), &quiet_link(), &quiet).state, e);
    assert_eq!(est.update(&moving_link(0.8), &moving_link(0.8), &moving).state, m);
}

use esp_radar::calibration::{
    fit_line, BaselineCollector, BaselineStats, ClassThresholds, SweepPoint, ThresholdSource,
    TxPowerModel, MIN_BASELINE_SAMPLES,
};

fn flat(v: f32) -> [u32; 56] {
    [v.to_bits(); 56]
}

#[test]
fn baseline_collector_counts_and_averages() {
    let mut c = BaselineCollector::new();
    for _ in 0..200 {
        c.update(true, -55);
    }
    c.update(false, 0);
    assert_eq!(c.count(), 200);
    let b = c.finish(flat(10.0), flat(0.0), (-95.0f32).to_bits());
    assert!(b.valid);
    assert_eq!(b.rssi_mean, -55);
    assert_eq!(b.n_samples, 200);
    assert_eq!(f32::from_bits(b.mean[0]), 10.0);
    c.reset();
    assert_eq!(c.count(), 0);
}

#[test]
fn baseline_roundtrip_bytes() {
    let b = BaselineStats {
        mean: flat(3.5),
        std: flat(0.25),
        n_samples: 150,
        rssi_mean: -60,
        noise_floor: (-98.5f32).to_bits(),
        valid: true,
    };
    let bytes = b.to_bytes();
    let c = BaselineStats::from_bytes(&bytes);
    assert!(c.valid);
    assert_eq!(c.n_samples, 150);
    assert_eq!(c.rssi_mean, -60);
    assert!((f32::from_bits(c.mean[0]) - 3.5).abs() < 1e-6);
    assert!((f32::from_bits(c.std[55]) - 0.25).abs() < 1e-6);
    assert!((f32::from_bits(c.noise_floor) - -98.5).abs() < 1e-6);
}

#[test]
fn baseline_requires_min_samples() {
    let mut c = BaselineCollector::new();
    for _ in 0..50 {
        c.update(true, -50);
    }
    let b = c.finish(flat(1.0), flat(0.0), 0);
    assert!(!b.valid, "50 samples < MIN_BASELINE_SAMPLES=100");
    assert_eq!(MIN_BASELINE_SAMPLES, 100);
}

#[test]
fn tx_power_model_fit() {
    let points: Vec<SweepPoint> = [4i16, 20, 40, 60, 78]
        .iter()
        .map(|&p| SweepPoint { tx_power_db: p, rssi: p - 50, ..Default::default() })
        .collect();
    let l = fit_line(&points).expect("fit");
    let slope = l.numer as f64 / l.denom as f64;
    let intercept = (l.sum_rssi as f64 - slope * l.sum_power as f64) / l.n as f64;
    assert!((slope - 1.0).abs() < 1e-3, "slope {}", slope);
    assert!((intercept - -50.0).abs() < 0.1, "intercept {}", intercept);
    let p = ((-45.0 - intercept) / slope).round() as i16;
    assert_eq!(p, 5);
}

#[test]
fn tx_power_fit_needs_two_points() {
    let one = [SweepPoint { tx_power_db: 20, rssi: -30, ..Default::default() }];
    assert!(fit_line(&one).is_none());
}

#[test]
fn one_power_gives_no_line() {
    let p = SweepPoint { tx_power_db: 20, rssi: -30, ..Default::default() };
    let q = SweepPoint { tx_power_db: 20, rssi: -40, ..Default::default() };
    assert!(fit_line(&[p, q, p]).is_none());
}

#[test]
fn tx_power_model_roundtrip() {
    let m = TxPowerModel {
        slope: 0.98f32.to_bits(),
        intercept: (-51.5f32).to_bits(),
        r2: 0.992f32.to_bits(),
        n_points: 5,
    };
    let bytes = m.to_bytes();
    let c = TxPowerModel::from_bytes(&bytes);
    assert!((f32::from_bits(c.slope) - 0.98).abs() < 1e-6);
    assert!((f32::from_bits(c.intercept) - -51.5).abs() < 1e-6);
    assert!((f32::from_bits(c.r2) - 0.992).abs() < 1e-6);
    assert_eq!(c.n_points, 5);
}

#[test]
fn class_thresholds_roundtrip() {
    let t = ClassThresholds {
        empty_thresh: 0.01f32.to_bits(),
        move_thresh: 0.5f32.to_bits(),
        strong_thresh: 2.0f32.to_bits(),
        static_thresh: 1.0f32.to_bits(),
        hold_frames: 10,
        source: ThresholdSource::Calibrated,
    };
    let bytes = t.to_bytes();
    let c = ClassThresholds::from_bytes(&bytes);
    assert_eq!(f32::from_bits(c.move_thresh), 0.5);
    assert_eq!(c.hold_frames, 10);
    assert!(matches!(c.source, ThresholdSource::Calibrated));
    assert_eq!(c.to_params().hold_frames, 10);
}

#[test]
fn short_blobs_fall_back_to_defaults() {
    assert!(!BaselineStats::from_bytes(&[0; 10]).valid);
    assert_eq!(TxPowerModel::from_bytes(&[0; 12]).n_points, TxPowerModel::default().n_points);
    assert_eq!(
        ClassThresholds::from_bytes(&[]).move_thresh,
        ClassThresholds::default().move_thresh
    );
}

#[test]
fn mean_of_received_power_is_rounded() {
    let mut c = BaselineCollector::new();
    c.update(true, -55);
    c.update(true, -56);
    c.update(true, -56);
    assert_eq!(c.finish(flat(0.0), flat(0.0), 0).rssi_mean, -56);
}

#[test]
fn baseline_gives_the_normalizer() {
    let mut b = BaselineStats::default();
    b.mean[3] = 10.0f32.to_bits();
    b.std[3] = 2.0f32.to_bits();
    let n = b.normalizer();
    assert_eq!(n.base, b.mean);
    assert_eq!(n.scale, b.std);
    assert_eq!(n.scale[0], 1.0f32.to_bits());
}

use esp_radar::protocol::payloads::{encode_cal_cmd, CalCmd};
use esp_radar::protocol::{cal_action, cal_result, cal_stage, frame_type, report_flags};
use esp_radar::receiver::collect::{
    active_deadline, finalize_cal, handle_cal_cmd, CalCollect, CollectedReals, LinkAccum,
};
use esp_radar::receiver::metrics::{csi_quality, sat_score, snr_db, FrameStats};
use esp_radar::receiver::radar::{make_snapshot, Receiver};
use esp_radar::receiver::window::{ReportReals, ReportWindow};

fn stats(rssi: i16, sat: u8) -> FrameStats {
    FrameStats { valid: true, rssi, noise_floor: -95, sat, dyn_range: 50 }
}

fn reals() -> ReportReals {
    ReportReals {
        amp_mean: 1,
        amp_std: 2,
        motion_energy: 3,
        spectral_entropy: 4,
        dominant_freq_hz: 5,
        phase_dispersion: 6,
        baseline_dev: 7,
        pca_scores: [8; 8],
    }
}

fn collected() -> CollectedReals {
    CollectedReals { mean: [1; 56], std: [2; 56], noise_floor: (-95.0f32).to_bits() }
}

#[test]
fn saturation_is_a_share_of_the_samples() {
    assert_eq!(sat_score(&[]), 0);
    assert_eq!(sat_score(&[127, -128, 120, -120]), 100);
    assert_eq!(sat_score(&[119, -119, 0, 120]), 25);
}

#[test]
fn quality_follows_the_signal() {
    assert_eq!(snr_db(-55, -95), 40);
    assert_eq!((csi_quality(-41), csi_quality(-40), csi_quality(-5)), (0, 0, 35));
    assert_eq!((csi_quality(60), csi_quality(1000)), (100, 100));
}

#[test]
fn an_accumulator_reports_means_and_the_worst_saturation() {
    let mut a = LinkAccum::new();
    a.push(&stats(-50, 10));
    a.push(&stats(-53, 90));
    let r = a.finish(cal_stage::RF_POWER, cal_result::OK, 77);
    assert_eq!((r.stage, r.result, r.n_samples, r.noise_floor), (2, 0, 2, 77));
    assert_eq!(r.rssi, -51);
    assert_eq!(r.snr, 43);
    assert_eq!(r.sat_score, 90);
    assert_eq!(r.dyn_range, 50);
}

#[test]
fn identity_is_answered_at_once() {
    let mut cal = CalCollect::Idle;
    let cmd = CalCmd { stage: cal_stage::IDENTITY, action: cal_action::START, collect_ms: 0, tx_power_db: 0 };
    let r = handle_cal_cmd(&mut cal, &cmd, 5).unwrap();
    assert_eq!((r.stage, r.result), (cal_stage::IDENTITY, cal_result::OK));
    assert!(matches!(cal, CalCollect::Idle));
    assert_eq!(active_deadline(&cal), None);
}

#[test]
fn a_sweep_point_is_collected() {
    let mut cal = CalCollect::Idle;
    let cmd = CalCmd { stage: cal_stage::RF_POWER, action: cal_action::COLLECT, collect_ms: 800, tx_power_db: 4 };
    assert!(handle_cal_cmd(&mut cal, &cmd, 1_000).is_none());
    assert_eq!(active_deadline(&cal), Some(801_000));
    assert_eq!(cal.deadline(), 801_000);
    cal.feed(&stats(-40, 70));
    cal.feed(&stats(-40, 70));
    let f = finalize_cal(&mut cal, &collected()).unwrap();
    assert_eq!(f.resp.result, cal_result::SAT);
    assert_eq!(f.resp.n_samples, 2);
    assert!(f.baseline.is_none());
    assert!(finalize_cal(&mut cal, &collected()).is_none());
}

#[test]
fn a_baseline_needs_enough_frames() {
    let cmd = CalCmd { stage: cal_stage::EMPTY_ROOM, action: cal_action::COLLECT, collect_ms: 10_000, tx_power_db: 0 };
    for (n, result) in [(99, cal_result::ERR), (100, cal_result::OK)] {
        let mut cal = CalCollect::Idle;
        handle_cal_cmd(&mut cal, &cmd, 0);
        for _ in 0..n {
            cal.feed(&stats(-60, 0));
        }
        let f = finalize_cal(&mut cal, &collected()).unwrap();
        assert_eq!((f.resp.result, f.resp.rssi, f.resp.n_samples), (result, -60, n));
        assert_eq!(f.baseline.is_some(), result == cal_result::OK);
    }
}

#[test]
fn abort_ends_a_collection() {
    let mut cal = CalCollect::Idle;
    let mut cmd = CalCmd { stage: cal_stage::FINGERPRINT, action: cal_action::COLLECT, collect_ms: 5, tx_power_db: 0 };
    handle_cal_cmd(&mut cal, &cmd, 0);
    assert!(matches!(cal, CalCollect::Fingerprint { .. }));
    cmd.action = cal_action::ABORT;
    assert!(handle_cal_cmd(&mut cal, &cmd, 0).is_none());
    assert!(matches!(cal, CalCollect::Idle));
}

#[test]
fn a_window_becomes_a_report() {
    let mut w = ReportWindow::new();
    w.push(&stats(-50, 4));
    w.push(&stats(-52, 8));
    let r = w.report(&reals(), 120, 100, 0);
    assert_eq!((r.seq, r.n_frames, r.n_missing, r.rssi), (120, 2, 18, -51));
    assert_eq!((r.snr, r.sat_score, r.dyn_range, r.flags), (44, 6, 50, 0));
    assert_eq!((r.amp_mean, r.baseline_dev, r.pca_scores[7]), (1, 7, 8));
    assert_eq!(w.report(&reals(), 120, 100, 3).flags, report_flags::OVERFLOW);
    w.reset();
    assert_eq!(w.n, 0);
}

#[test]
fn reports_and_snapshots_keep_their_cadence() {
    let mut r = Receiver::new(4, [1, 2, 3, 4, 5, 6], 0);
    assert!(r.wants(&[1, 2, 3, 4, 5, 6]));
    assert!(!r.wants(&[1, 2, 3, 4, 5, 7]));
    let mut reports = 0;
    let mut snapshots = 0;
    for i in 1..=200u32 {
        r.on_measurement(frame_type::DATA_FRAME, i);
        assert_eq!(r.begin_frame().refit, i % 4 == 0);
        if r.take_frame(&stats(-50, 0)) {
            let d = r.make_report(&reals(), 0);
            assert_eq!(d.report.seq, i);
            assert_eq!(d.report.n_frames, 4);
            reports += 1;
            if d.snapshot {
                snapshots += 1;
            }
        }
    }
    assert_eq!((reports, snapshots), (50, 10));
}

#[test]
fn undecodable_frames_are_not_reported() {
    let mut r = Receiver::new(2, [0; 6], 5);
    let bad = FrameStats { valid: false, rssi: 0, noise_floor: 0, sat: 0, dyn_range: 0 };
    assert!(!r.take_frame(&bad));
    assert!(!r.take_frame(&stats(-50, 0)));
    assert!(r.take_frame(&stats(-50, 0)));
    let d = r.make_report(&reals(), 9);
    assert_eq!(d.report.flags, report_flags::OVERFLOW);
    r.take_frame(&stats(-50, 0));
    r.take_frame(&stats(-50, 0));
    assert_eq!(r.make_report(&reals(), 9).report.flags, 0);
}

#[test]
fn wired_commands_start_collections() {
    let mut r = Receiver::new(20, [0; 6], 0);
    let cmd = CalCmd { stage: cal_stage::MOVING_TEST, action: cal_action::COLLECT, collect_ms: 1, tx_power_db: 0 };
    assert!(r.on_wired(frame_type::CAL_CMD, &encode_cal_cmd(&cmd), 500).is_none());
    assert!(!r.collection_is_over(1_000));
    assert!(r.collection_is_over(1_500));
    let f = r.finish_collection(&collected()).unwrap();
    assert_eq!(f.resp.stage, cal_stage::MOVING_TEST);
    assert!(!r.collection_is_over(9_999));
    assert!(r.on_wired(frame_type::STATUS, &[1, 2, 3], 0).is_none());
}

#[test]
fn a_snapshot_carries_its_channel() {
    let s = make_snapshot(9, -50, -90, (-90.0f32).to_bits(), [1; 112], [2; 56], [3; 64]);
    assert_eq!((s.seq, s.rssi, s.snr, s.n_sub), (9, -50, 40, 56));
    assert_eq!((s.iq[111], s.amp_norm[55], s.spec[63]), (1, 2, 3));
}

#[test]
fn abort_needs_no_window() {
    let cmd = CalCmd {
        stage: cal_stage::RF_POWER,
        action: cal_action::ABORT,
        collect_ms: u32::MAX,
        tx_power_db: 0,
    };
    let mut cal = CalCollect::Idle;
    assert!(handle_cal_cmd(&mut cal, &cmd, u64::MAX).is_none());
    assert!(matches!(cal, CalCollect::Idle));
    let mut r = Receiver::new(20, [0; 6], 0);
    let start = CalCmd { action: cal_action::COLLECT, collect_ms: 1, ..cmd };
    assert!(r.on_wired(frame_type::CAL_CMD, &encode_cal_cmd(&start), 0).is_none());
    assert!(matches!(r.cal, CalCollect::RfPower { .. }));
    assert!(r.on_wired(frame_type::CAL_CMD, &encode_cal_cmd(&cmd), u64::MAX).is_none());
    assert!(matches!(r.cal, CalCollect::Idle));
}

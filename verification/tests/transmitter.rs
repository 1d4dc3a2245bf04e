use esp_radar::features::{FusionMetrics, LinkFeatures, OccupancyState};
use esp_radar::protocol::payloads::{
    encode_cal_resp, encode_csi_snapshot, encode_feature_report, parse_cal_cmd, CalCmd, CalResp,
    CsiSnapshot, FeatureReport,
};
use esp_radar::protocol::{cal_stage, frame_type, node, parse};
use esp_radar::storage::RadarConfig;
use esp_radar::transmitter::calibrate::{
    boot_power, commissioned_power, quarter_dbm, record_commissioning, sweep_power_dbm, CalCommand,
    Calibrator, Phase, TickOutcome, DEFAULT_TX_POWER_DBM,
};
use esp_radar::transmitter::coprocessor::Schedule;
use esp_radar::transmitter::endpoints::{cal_reply, parse_cal_uri, CalReply};
use esp_radar::transmitter::fusion::Controller;
use esp_radar::transmitter::rings::{
    encode_fused_spec, encode_spec, encode_waterfall, SnapshotRing, RING_CAP,
};
use esp_radar::transmitter::status::{make_status, publish, Estimate, StatusInputs};
use esp_radar::transmitter::traffic::{error_is_logged, Pacer};
use esp_radar::transmitter::wired::CommandLink;
use esp_radar::web::telemetry::StatusSnapshot;

fn resp(stage: u8, rssi: i16, sat: u8) -> CalResp {
    CalResp { stage, rssi, sat_score: sat, n_samples: 100, ..Default::default() }
}

#[test]
fn a_sweep_visits_every_power() {
    let mut c = Calibrator::new();
    let o = c.start(CalCommand::StartStage(cal_stage::RF_POWER), 0);
    assert_eq!(o.set_power, Some(4));
    assert_eq!(o.command.unwrap().collect_ms, 800);
    assert!(c.is_active());
    let mut now = 0;
    for idx in 0..5 {
        assert_eq!(sweep_power_dbm(idx), 4 + 4 * idx as i16);
        assert!(matches!(c.tick(now + 1), TickOutcome::Quiet));
        c.on_resp(node::RX1, resp(cal_stage::RF_POWER, -60 + idx as i16, 1));
        assert!(matches!(c.tick(now + 1), TickOutcome::Quiet));
        c.on_resp(node::RX2, resp(cal_stage::RF_POWER, -58 + idx as i16, 2));
        now += 1_000_000;
        match c.tick(now) {
            TickOutcome::NextPoint(o) => {
                assert!(idx < 4);
                assert_eq!(o.set_power, Some(8 + 4 * idx as i16));
                assert_eq!(o.command.unwrap().tx_power_db, 8 + 4 * idx as i16);
            }
            TickOutcome::SweepDone(points) => {
                assert_eq!(idx, 4);
                assert_eq!(points.len(), 5);
                assert_eq!(points[2].tx_power_db, 12);
            }
            _ => panic!(),
        }
    }
    assert!(!c.is_active());
    assert_eq!(c.current_stage(), 0);
}

#[test]
fn a_sweep_stops_at_saturation() {
    let mut c = Calibrator::new();
    c.begin_stage(cal_stage::RF_POWER, 0);
    c.on_resp(node::RX1, resp(cal_stage::RF_POWER, -20, 70));
    c.on_resp(node::RX2, resp(cal_stage::RF_POWER, -30, 0));
    match c.tick(5) {
        TickOutcome::SweepDone(points) => assert_eq!(points.len(), 1),
        _ => panic!(),
    }
}

#[test]
fn silent_links_time_out() {
    let mut c = Calibrator::new();
    c.begin_stage(cal_stage::IDENTITY, 100);
    assert_eq!(c.current_stage(), cal_stage::IDENTITY);
    assert!(matches!(c.tick(3_000_099), TickOutcome::Quiet));
    assert!(matches!(c.tick(3_000_100), TickOutcome::StageDone(1)));
    assert!(matches!(c.phase, Phase::Done));
    c.begin_stage(cal_stage::RF_POWER, 0);
    let mut now = 2_000_000;
    for _ in 0..4 {
        assert!(matches!(c.tick(now), TickOutcome::NextPoint(_)));
        now += 2_000_000;
    }
    match c.tick(now) {
        TickOutcome::SweepDone(points) => assert!(points.is_empty()),
        _ => panic!(),
    }
}

#[test]
fn replies_of_another_stage_do_not_count() {
    let mut c = Calibrator::new();
    c.begin_stage(cal_stage::EMPTY_ROOM, 0);
    c.on_resp(node::RX1, resp(cal_stage::RF_POWER, -50, 0));
    c.on_resp(node::RX2, resp(cal_stage::EMPTY_ROOM, -50, 0));
    assert!(matches!(c.tick(1), TickOutcome::Quiet));
    c.on_resp(node::RX1, resp(cal_stage::EMPTY_ROOM, -50, 0));
    assert!(matches!(c.tick(1), TickOutcome::StageDone(3)));
}

#[test]
fn the_moving_test_fills_a_histogram() {
    let mut c = Calibrator::new();
    c.begin_stage(cal_stage::MOVING_TEST, 0);
    for i in 0..60 {
        c.on_pair(i, (i as f32).to_bits(), 0.5f32.to_bits());
    }
    c.on_pair(5_000, 99.0f32.to_bits(), 0.25f32.to_bits());
    assert!(c.has_enough_pairs());
    assert_eq!(c.percentile_bin(30), 29);
    assert_eq!(c.percentile_bin(61), 199);
    assert_eq!((f32::from_bits(c.max_energy), f32::from_bits(c.max_dev)), (99.0, 0.5));
    assert!(matches!(c.tick(14_999_999), TickOutcome::Quiet));
    assert!(matches!(c.tick(15_000_000), TickOutcome::MovingDone));
    c.on_pair(1, 0, 0);
    assert_eq!(c.count, 61);
}

#[test]
fn abort_and_commissioning() {
    let mut c = Calibrator::new();
    c.start(CalCommand::AutoCommission, 0);
    assert_eq!(c.current_stage(), cal_stage::RF_POWER);
    c.start(CalCommand::Abort, 0);
    assert!(!c.is_active());
    c.mark_commissioned(true);
    let o = c.start(CalCommand::AutoCommission, 0);
    assert!(o.command.is_none() && !c.is_active());
    assert!(c.take_thresholds().is_none());
    c.set_thresholds(Default::default());
    assert!(c.take_thresholds().is_some());
    assert!(c.take_thresholds().is_none());
}

#[test]
fn powers_are_kept_in_range() {
    assert_eq!((commissioned_power(-3), commissioned_power(13), commissioned_power(90)), (4, 13, 20));
    assert_eq!((quarter_dbm(13), quarter_dbm(90)), (52, 80));
    let mut config = RadarConfig::default();
    assert_eq!(boot_power(&config), DEFAULT_TX_POWER_DBM);
    let mut c = Calibrator::new();
    assert_eq!(record_commissioning(&mut c, &mut config, 15), 15);
    assert_eq!(boot_power(&config), 15);
    assert!(c.has_model);
}

#[test]
fn the_coprocessor_is_probed_and_asked() {
    let mut s = Schedule::new(10);
    assert!(s.probe_is_due(false, 10));
    assert!(!s.probe_is_due(true, 10));
    s.probed(false, 10);
    assert!(!s.probe_is_due(false, 1_000_009));
    assert!(s.probe_is_due(false, 1_000_010));
    s.probed(true, 1_000_010);
    assert!(s.heartbeat(true, 1_000_010));
    assert!(!s.heartbeat(true, 2_000_009));
    assert!(s.heartbeat(true, 2_000_010));
    assert!(!s.heartbeat(false, 9_000_000));
}

#[test]
fn calibration_requests_are_parsed() {
    assert!(matches!(parse_cal_uri("/cal?stage=3"), Some(CalCommand::StartStage(3))));
    assert!(matches!(parse_cal_uri("/cal?x=1&stage=2"), Some(CalCommand::StartStage(2))));
    assert!(parse_cal_uri("/cal").is_none());
    assert!(parse_cal_uri("/cal?stage=many").is_none());
    assert!(matches!(cal_reply(None, true), CalReply::Usage));
    assert!(matches!(cal_reply(Some(CalCommand::Abort), false), CalReply::Unavailable));
    let queued = cal_reply(Some(CalCommand::Abort), true);
    assert_eq!(queued.status(), 200);
    assert_ne!(CalReply::Usage.status(), 200);
}

#[test]
fn packets_are_paced() {
    let mut p = Pacer::new(200, 1_000);
    assert_eq!(p.after_send(1_100), 4_900);
    assert_eq!(p.after_send(6_000), 5_000);
    assert_eq!(p.after_send(50_000), 0);
    assert_eq!(p.after_send(50_001), 4_999);
    assert_eq!(Pacer::new(0, 0).period_us, 1_000_000);
    assert!(error_is_logged(None, 0));
    assert!(!error_is_logged(Some(10), 5_000_009));
    assert!(error_is_logged(Some(10), 5_000_010));
}

#[test]
fn commands_are_framed_and_numbered() {
    let mut l = CommandLink::new();
    let mut buf = [0u8; 64];
    let cmd = CalCmd { stage: 2, action: 3, collect_ms: 800, tx_power_db: 8 };
    let n = l.cal_cmd_frame(&mut buf, &cmd, 77);
    assert_eq!(n, 32);
    let (h, p) = parse(&buf[..n]).unwrap();
    assert_eq!((h.kind, h.src_node, h.t_us), (frame_type::CAL_CMD, node::TX, 77));
    assert_eq!(parse_cal_cmd(p).unwrap().tx_power_db, 8);
    let first = h.seq;
    let n = l.cal_cmd_frame(&mut buf, &cmd, 78);
    assert_eq!(parse(&buf[..n]).unwrap().0.seq, first + 1);
}

#[test]
fn rings_become_pictures() {
    let mut a = SnapshotRing::new();
    let mut b = SnapshotRing::new();
    let mut buf = [0u8; 4096];
    assert!(encode_waterfall(&mut buf, 1, &a).is_none());
    for i in 0..60u8 {
        a.push(&[i; 56], &[i; 64]);
    }
    b.push(&[1; 56], &[40; 64]);
    b.push(&[1; 56], &[41; 64]);
    assert_eq!(encode_waterfall(&mut buf, 1, &a), Some(11 + 56 * RING_CAP));
    assert_eq!((buf[11], buf[11 + 56]), (12, 13));
    assert_eq!(encode_spec(&mut buf, 2, &b), Some(11 + 64 * 2));
    assert_eq!(buf[11], 40);
    assert_eq!(encode_fused_spec(&mut buf, &a, &b), Some(11 + 64 * 2));
    assert_eq!(encode_waterfall(&mut [0u8; 100], 1, &a), None);
}

#[test]
fn the_controller_routes_by_source() {
    let mut c = Controller::new(10, 0, false);
    assert!(!c.radar_active());
    let r = |seq: u32, e: f32| {
        encode_feature_report(&FeatureReport { seq, motion_energy: e.to_bits(), ..Default::default() })
    };
    c.route(frame_type::FEATURE_REPORT, node::RX1, 1, &r(20, 0.5), 0);
    assert!(!c.auto_commission(0));
    c.route(frame_type::FEATURE_REPORT, node::RX2, 1, &r(25, 0.75), 0);
    assert!(c.radar_active());
    assert!(c.auto_commission(0));
    assert!(!c.auto_commission(99_000_000));
    let (f1, f2) = c.next_pair(1).unwrap();
    assert_eq!((f32::from_bits(f1.motion_energy), f32::from_bits(f2.motion_energy)), (0.5, 0.75));
    assert!(c.next_pair(1).is_none());

    let snap = CsiSnapshot { amp_norm: [9; 56], spec: [8; 64], ..Default::default() };
    c.route(frame_type::CSI_SNAPSHOT, node::RX2, 1, &encode_csi_snapshot(&snap), 0);
    assert_eq!(c.rx2.ring.amps.len(), 1);
    assert_eq!(c.rx1.ring.amps.len(), 0);

    c.cal.begin_stage(cal_stage::IDENTITY, 0);
    for src in [node::RX1, node::RX2] {
        let p = encode_cal_resp(&resp(cal_stage::IDENTITY, 0, 0));
        c.route(frame_type::CAL_RESP, src, 1, &p, 0);
    }
    assert!(matches!(c.cal.tick(1), TickOutcome::StageDone(1)));
    assert!(!Controller::new(10, 6, true).auto_commission(99_000_000));
    assert!(Controller::new(10, 0, true).auto_commission(20_000_000));
}

#[test]
fn the_status_gathers_both_links() {
    let rep = |rssi: i16, q: u8| FeatureReport { rssi, csi_quality: q, ..Default::default() };
    let lf = |e: f32, p: f32| LinkFeatures {
        motion_energy: e.to_bits(),
        pca0: p.to_bits(),
        ..Default::default()
    };
    let mut i = StatusInputs {
        t_us: 5,
        tx_power: 12,
        rep1: Some(rep(-50, 80)),
        rep2: None,
        lf1: lf(0.5, 1.0),
        lf2: lf(0.75, 2.0),
        dominant1: 10,
        dominant2: 20,
        estimate: None,
        delivery_pct: 99,
        paired_frames_s: 10,
    };
    let mut seq = u32::MAX;
    let f = make_status(&i, &mut seq);
    assert_eq!((f.seq, seq), (0, 0));
    assert_eq!((f.rssi_rx1, f.csi_quality_rx1, f.csi_quality_rx2), (-50, 80, 0));
    assert_eq!((f.dominant_freq_hz, f.pca1), (20, 2.0f32.to_bits()));
    assert!(matches!(f.occupancy, OccupancyState::Unknown));
    i.estimate = Some(Estimate {
        state: OccupancyState::Movement,
        confidence_pct: 87,
        metrics: FusionMetrics { fused_energy: 1.5f32.to_bits(), ..Default::default() },
    });
    let f = make_status(&i, &mut seq);
    assert_eq!((f.seq, f.confidence, f.motion_energy_fused), (1, 87, 1.5f32.to_bits()));

    let mut snap = StatusSnapshot::default();
    publish(&mut snap, f, 3, true, true);
    assert_eq!((snap.cal_stage, snap.cal_active, snap.radar_active), (3, true, true));
    assert_eq!(snap.frame.confidence, 87);
}

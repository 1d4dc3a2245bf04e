use esp_radar::protocol::payloads::{
    parse_cal_resp, parse_csi_snapshot, parse_data_payload, parse_feature_report, CalResp,
    CsiSnapshot, FeatureReport,
};
use esp_radar::protocol::{data_flags, frame_type, node};
use esp_radar::transport::pairer::Pairer;
use esp_radar::transport::tracker::SequenceTracker;
use esp_radar::transport::udp::{
    after_receive, after_send, after_set_option, broadcast_option, peer, recv_radar_frame,
    recv_timeout, sockaddr, sockaddr_any, FeatureReporter, TrafficSender, UdpError, UdpSocket,
};
use esp_radar::transport::window::WindowCounter;
use esp_radar::transport::{
    build_data_frame, build_feature_report, parse_frame, Ipv4Addr, MEASURE_PORT, REPORT_PORT,
};

fn sample_report(seq: u32, energy: f32) -> FeatureReport {
    FeatureReport { seq, motion_energy: energy.to_bits(), rssi: -55, ..Default::default() }
}

fn loss_ratio(t: &SequenceTracker) -> f32 {
    if t.total() == 0 {
        0.0
    } else {
        t.lost() as f32 / t.total() as f32
    }
}

#[test]
fn sequence_tracker_in_order() {
    let mut t = SequenceTracker::new();
    assert!(!t.observe(0).jumped);
    assert!(!t.observe(1).jumped);
    assert!(!t.observe(2).jumped);
    assert_eq!(t.gaps(), 0);
    assert_eq!(t.lost(), 0);
    assert_eq!(t.total(), 3);
    assert_eq!(loss_ratio(&t), 0.0);
}

#[test]
fn sequence_tracker_gap() {
    let mut t = SequenceTracker::new();
    t.observe(10);
    let ev = t.observe(15);
    assert!(ev.jumped);
    assert_eq!(ev.gap, 4);
    assert_eq!(t.lost(), 4);
    assert_eq!(t.total(), 6);
    assert!((loss_ratio(&t) - 4.0 / 6.0).abs() < 1e-6);
}

#[test]
fn sequence_tracker_wraparound() {
    let mut t = SequenceTracker::new();
    t.observe(u32::MAX - 1);
    assert!(!t.observe(u32::MAX).jumped);
    let ev = t.observe(0);
    assert!(!ev.jumped);
    assert_eq!(t.gaps(), 0);
    assert_eq!(t.lost(), 0);
    let mut t2 = SequenceTracker::new();
    t2.observe(100);
    let ev2 = t2.observe(5);
    assert!(ev2.resync);
    assert_eq!(ev2.gap, 0);
}

#[test]
fn window_counter_rates() {
    let mut wc = WindowCounter::new(1_000_000);
    for i in 0..5 {
        wc.push(i * 100_000);
    }
    let rate = |n: u64| n as f32 * 1e6 / 1_000_000.0;
    assert_eq!(rate(wc.count(500_000)), 5.0);
    assert_eq!(rate(wc.count(1_500_000)), 0.0);
    assert_eq!(wc.total(), 5);
}

#[test]
fn pairer_pairs_aligned_reports() {
    let mut p = Pairer::new(10);
    for i in 0..5u32 {
        p.push(node::RX1, sample_report(i * 20, i as f32), (i * 1000) as u64);
        p.push(node::RX2, sample_report(i * 20, i as f32 * 2.0), (i * 1000) as u64);
    }
    let mut pairs = 0;
    while let Some(_) = p.next_pair(1_000_000) {
        pairs += 1;
    }
    assert_eq!(pairs, 5);
    assert_eq!(p.pairs_total, 5);
    assert_eq!(p.dropped_unpaired, 0);
}

#[test]
fn pairer_tolerates_phase_offset() {
    let mut p = Pairer::new(10);
    for i in 0..4u32 {
        p.push(node::RX1, sample_report(i * 20, 1.0), (i * 1000) as u64);
        p.push(node::RX2, sample_report(i * 20 + 10, 2.0), (i * 1000) as u64);
    }
    let mut pairs = 0;
    while let Some(_) = p.next_pair(1_000_000) {
        pairs += 1;
    }
    assert_eq!(pairs, 4);
    assert_eq!(p.dropped_unpaired, 0);
}

#[test]
fn pairer_drops_orphans() {
    let mut p = Pairer::new(5);
    p.push(node::RX1, sample_report(100, 1.0), 0);
    for i in 0..4 {
        p.push(node::RX2, sample_report(200 + i * 20, 2.0), 0);
    }
    let mut pairs = 0;
    while let Some(_) = p.next_pair(1_000_000) {
        pairs += 1;
    }
    assert_eq!(pairs, 0);
    assert_eq!(p.dropped_unpaired, 1);
    assert_eq!(p.buffered(), (0, 4));
}

#[test]
fn build_data_frame_roundtrip() {
    let mut buf = [0u8; 128];
    let n = build_data_frame(&mut buf, node::TX, 7, 1234, 40, true);
    assert!(n > 0);
    let (kind, src, seq, payload) = parse_frame(&buf[..n]).expect("parse");
    assert_eq!(kind, frame_type::DATA_FRAME);
    assert_eq!(src, node::TX);
    assert_eq!(seq, 7);
    let dp = parse_data_payload(payload).unwrap();
    assert_eq!(dp.tx_power_db, 40);
    assert_ne!(dp.flags & data_flags::CAL, 0);
}

#[test]
fn feature_report_roundtrip() {
    let mut buf = [0u8; 512];
    let r = sample_report(99, 1.25);
    let n = build_feature_report(&mut buf, node::RX1, &r, 555);
    assert!(n > 0);
    let (kind, src, _seq, payload) = parse_frame(&buf[..n]).expect("parse");
    assert_eq!(kind, frame_type::FEATURE_REPORT);
    assert_eq!(src, node::RX1);
    let back = parse_feature_report(payload).unwrap();
    assert_eq!(back.seq, 99);
    assert!((f32::from_bits(back.motion_energy) - 1.25).abs() < 1e-6);
}

#[test]
fn pairs_carry_the_two_reports() {
    let mut p = Pairer::new(10);
    p.push(node::RX1, sample_report(40, 1.0), 0);
    p.push(node::RX2, sample_report(47, 2.0), 0);
    let pair = p.next_pair(5).unwrap();
    assert_eq!((pair.rx1.seq, pair.rx2.seq, pair.seq_delta), (40, 47, 7));
    assert_eq!(p.buffered(), (0, 0));
    p.push(node::TX, sample_report(60, 1.0), 0);
    assert_eq!(p.buffered(), (0, 0));
}

#[test]
fn waiting_reports_are_bounded() {
    let mut p = Pairer::new(10);
    for i in 0..100u32 {
        p.push(node::RX1, sample_report(i * 20, 1.0), 0);
    }
    assert_eq!(p.buffered().0, 64);
    p.reset();
    assert_eq!(p.buffered(), (0, 0));
}

#[test]
fn tracker_resets() {
    let mut t = SequenceTracker::new();
    t.observe(1);
    t.observe(9);
    t.reset();
    assert_eq!((t.total(), t.lost(), t.gaps(), t.resyncs()), (0, 0, 0, 0));
    assert!(!t.observe(77).jumped);
}

#[test]
fn socket_addresses_are_in_network_order() {
    let ip = Ipv4Addr::ap();
    assert_eq!(ip.text(), "192.168.4.1");
    let a = sockaddr(ip, MEASURE_PORT);
    assert_eq!(&a[2..4], &4444u16.to_be_bytes());
    assert_eq!(&a[4..8], &[192, 168, 4, 1]);
    let (back, port) = peer(&a);
    assert_eq!((back.octets(), port), ([192, 168, 4, 1], 4444));
    assert_eq!(&sockaddr_any(REPORT_PORT)[4..8], &[0, 0, 0, 0]);
    assert_eq!(Ipv4Addr::ap_broadcast().text(), "192.168.4.255");
    assert_eq!(Ipv4Addr::unspecified().text(), "0.0.0.0");
}

#[test]
fn socket_codes_become_errors() {
    assert!(matches!(UdpSocket::opened(-1), Err(UdpError::Open(-1))));
    let s = UdpSocket::opened(3).unwrap();
    assert_eq!(s.fd(), 3);
    assert!(matches!(s.bound(-5), Err(UdpError::Open(-5))));
    assert!(matches!(after_set_option(-2), Err(UdpError::SetOpt(-2))));
    assert!(after_set_option(0).is_ok());
    assert!(matches!(after_send(-4), Err(UdpError::Send(-4))));
    assert_eq!(after_send(26).unwrap(), 26);
    assert!(after_receive(-1, &[0; 16]).is_none());
    assert_eq!((broadcast_option(true), broadcast_option(false)), (1, 0));
    assert_eq!(recv_timeout(1500).tv_sec, 1);
    assert_eq!(recv_timeout(1500).tv_usec, 500_000);
    assert_ne!(UdpError::Recv(1).text(), UdpError::Send(1).text());
    assert!(!UdpError::TooSmall.text().is_empty());
}

#[test]
fn the_sender_numbers_what_was_sent() {
    let mut s = TrafficSender::new(MEASURE_PORT);
    let mut buf = [0u8; 256];
    assert_eq!(s.seq(), 0);
    let n = s.next_frame(&mut buf, 9, 20, false);
    assert_eq!(n, 26);
    assert_eq!(s.send(26).unwrap(), 0);
    assert_eq!(s.seq(), 1);
    assert!(s.send(-1).is_err());
    assert_eq!(s.frames_sent, 1);
    s.set_target(Ipv4Addr::ap(), 99);
    assert_eq!((s.dst.octets(), s.port), ([192, 168, 4, 1], 99));
}

#[test]
fn the_reporter_frames_reports_replies_and_snapshots() {
    let mut r = FeatureReporter::new();
    r.learn_target(Ipv4Addr::ap(), REPORT_PORT);
    assert_eq!(r.target().1, REPORT_PORT);
    let mut buf = [0u8; 512];
    let report = sample_report(8, 0.5);
    let n = r.report_frame(&mut buf, node::RX2, &report, 77);
    assert_eq!(n, 103);
    let from = sockaddr(Ipv4Addr::ap(), 5000);
    let f = recv_radar_frame(&buf, n as i32, &from).unwrap();
    assert_eq!((f.kind, f.src, f.seq, f.peer_port), (frame_type::FEATURE_REPORT, node::RX2, 8, 5000));
    assert!(recv_radar_frame(&buf, n as i32 - 1, &from).is_none());
    assert!(recv_radar_frame(&buf, -1, &from).is_none());
    assert_eq!(r.send(&report, 103).unwrap(), 8);
    assert_eq!(r.reports_sent, 1);
    assert!(r.send(&report, -1).is_err());

    let resp = CalResp { stage: 2, n_samples: 5, ..Default::default() };
    let n = r.cal_resp_frame(&mut buf, node::RX1, &resp, 1);
    assert_eq!(n, 41);
    assert_eq!(parse_cal_resp(&buf[24..41]).unwrap().n_samples, 5);
    assert!(FeatureReporter::send_cal_resp(41).is_ok());

    let snap = CsiSnapshot { seq: 3, ..Default::default() };
    let n = r.csi_snapshot_frame(&mut buf, node::RX1, &snap, 1);
    assert_eq!(n, 383);
    assert_eq!(parse_csi_snapshot(&buf[24..383]).unwrap().seq, 3);
    assert!(FeatureReporter::send_csi_snapshot(-1).is_err());
}

#[test]
fn jumps_are_measured_from_the_last_number() {
    let mut t = SequenceTracker::new();
    assert!(!t.observe(0xffff_fffe).jumped);
    assert!(!t.observe(0xffff_ffff).jumped);
    let e = t.observe(0x7fff_ffff);
    assert!(e.jumped && !e.resync);
    assert_eq!((e.seq, e.gap), (0x7fff_ffff, 0x7fff_ffff));
    assert_eq!((t.gaps(), t.lost(), t.total(), t.resyncs()), (1, 0x7fff_ffff, 0x8000_0002, 0));
    assert!(!t.observe(0x8000_0000).jumped);
    let e = t.observe(0x0000_0001);
    assert_eq!((e.gap, e.resync), (0x8000_0000, false));
    let e = t.observe(0x8000_0003);
    assert_eq!((e.jumped, e.gap, e.resync), (true, 0, true));
    assert_eq!((t.gaps(), t.resyncs()), (2, 1));
    assert_eq!((t.lost(), t.total()), (0xffff_ffff, 0x1_0000_0005));
    assert!(!t.observe(0x8000_0004).jumped);
}

#[test]
fn only_events_in_the_window_are_held() {
    let mut wc = WindowCounter::new(1_000);
    let times = [0u64, 400, 400, 1_000, 1_400, 1_401, 5_000];
    let held = [1u64, 2, 3, 4, 4, 3, 1];
    for (i, (&t, &n)) in times.iter().zip(held.iter()).enumerate() {
        wc.push(t);
        assert_eq!(wc.total(), i as u64 + 1);
        assert_eq!(wc.count(0), n, "after {}", t);
    }
}

#[test]
fn every_report_is_paired_dropped_or_waiting() {
    let mut p = Pairer::new(5);
    for (n, seq) in [(node::RX1, 10), (node::RX1, 100), (node::RX1, 120), (node::RX2, 50)] {
        p.push(n, sample_report(seq, 1.0), 0);
    }
    for seq in [103, 118, 200] {
        p.push(node::RX2, sample_report(seq, 1.0), 0);
    }
    let mut seen = Vec::new();
    loop {
        let (a, b) = p.buffered();
        let (pairs, dropped) = (p.pairs_total, p.dropped_unpaired);
        let r = p.next_pair(0);
        let (a2, b2) = p.buffered();
        let k = r.is_some() as u64;
        let gone = p.dropped_unpaired - dropped;
        assert_eq!((a + b) as u64, (a2 + b2) as u64 + 2 * k + gone);
        assert_eq!(p.pairs_total, pairs + k);
        match r {
            Some(pair) => seen.push((pair.seq, pair.seq_delta, gone)),
            None => {
                assert!(a2 == 0 || b2 == 0);
                break;
            }
        }
    }
    assert_eq!(seen, vec![(103, 3, 2), (120, 2, 0)]);
    assert_eq!(p.buffered(), (0, 1));
}

use esp_radar::integration::checks::{
    all_passed, figures, handshake, is_ready, latest_summary, ratios, run_assertions, run_passed,
    Handshake,
};
use esp_radar::integration::common::{
    format_summary, get_str, get_u64, parse_summary, t_us_since, Config, Role, MEASURE_PORT,
    REPORT_PORT,
};
use esp_radar::integration::roles::{
    announced_power, rx_summary, tail_is_over, tx_summary, RxStep, RxTally, TxTally,
};
use esp_radar::protocol::payloads::{CsiSnapshot, FeatureReport};
use esp_radar::protocol::{frame_type, node};
use esp_radar::transport::{
    build_csi_snapshot, build_data_frame, build_feature_report, parse_frame,
};

#[test]
fn roles_have_names_and_nodes() {
    for r in [Role::Tx, Role::Rx1, Role::Rx2] {
        assert_eq!(Role::parse(r.as_str()), Some(r));
    }
    assert_eq!(Role::parse("rx3"), None);
    assert_eq!((Role::Tx.node_id(), Role::Rx1.node_id(), Role::Rx2.node_id()), (1, 2, 3));
    assert_eq!((MEASURE_PORT, REPORT_PORT), (4444, 4445));
    let c = Config::default();
    assert_eq!((c.duration_secs, c.rate_hz, c.seed), (8, 200, 42));
    assert_eq!(t_us_since(5), 1_000_005);
}

#[test]
fn summaries_are_read_back() {
    let line = tx_summary(1600, 80, 79, 78, 32, 77, "MOVEMENT");
    assert_eq!(
        line,
        "SUMMARY|role=tx|frames_sent=1600|reports_rx1=80|reports_rx2=79|pairs_total=78|snapshots_rx=32|fused_outputs=77|final_state=MOVEMENT"
    );
    let m = parse_summary(&line).unwrap();
    assert_eq!(get_u64(&m, "frames_sent"), 1600);
    assert_eq!(get_str(&m, "final_state"), "MOVEMENT");
    assert_eq!(get_u64(&m, "missing"), 0);
    assert_eq!(get_str(&m, "missing"), "");
    assert_eq!(get_u64(&m, "role"), 0);

    let line = rx_summary(Role::Rx2, 1, 2, 3, 4, 5, 6, 7, 8, 9, 10);
    assert_eq!(
        line,
        "SUMMARY|role=rx2|frames_rx=1|crc_fail=2|non_data=3|lost=4|total=5|gaps=6|resyncs=7|reports_sent=8|snapshots_sent=9|last_seq=10"
    );
    assert_eq!(get_u64(&parse_summary(&line).unwrap(), "last_seq"), 10);
}

#[test]
fn odd_summaries_are_understood() {
    assert!(parse_summary("READY:tx").is_none());
    let m = parse_summary("  SUMMARY|a= 1 ||b=x=y|junk|a=2  ").unwrap();
    assert_eq!(get_str(&m, "a"), "2");
    assert_eq!(get_str(&m, "b"), "x=y");
    assert_eq!(get_str(&m, "junk"), "");
    assert_eq!(format_summary(&vec![("k", "v".to_string())]), "SUMMARY|k=v");
}

#[test]
fn the_receiver_counts_what_arrives() {
    let mut rx = RxTally::new();
    let mut buf = [0u8; 256];
    for seq in 0..100u32 {
        let n = build_data_frame(&mut buf, node::TX, seq, 1, announced_power(seq), false);
        match rx.receive(&buf[..n], false) {
            RxStep::Measured { seq: s, tx_power, report_due, snapshot_due } => {
                assert_eq!(s, seq);
                assert_eq!(tx_power, 20 + (seq % 15) as u8);
                assert_eq!(report_due, (seq + 1) % 20 == 0);
                assert_eq!(snapshot_due, seq == 99);
            }
            RxStep::Ignored => panic!(),
        }
    }
    buf[25] ^= 0x40;
    assert_eq!(rx.receive(&buf[..26], false), RxStep::Ignored);
    let n = build_feature_report(&mut buf, node::RX1, &FeatureReport::default(), 0);
    assert_eq!(rx.receive(&buf[..n], false), RxStep::Ignored);
    assert_eq!(rx.receive(&buf[..n], true), RxStep::Ignored);
    assert_eq!((rx.frames_rx, rx.crc_fail, rx.non_data, rx.last_seq), (100, 1, 1, 99));
    assert_eq!(rx.tracker.lost(), 0);
}

#[test]
fn the_transmitter_counts_reports() {
    let mut tx = TxTally::new(10);
    let mut buf = [0u8; 512];
    for (src, seq) in [(node::RX1, 20u32), (node::RX2, 22), (node::RX1, 40)] {
        let r = FeatureReport { seq, ..Default::default() };
        let n = build_feature_report(&mut buf, src, &r, 0);
        tx.receive(&buf[..n], 5, false);
    }
    let n = build_csi_snapshot(&mut buf, node::RX1, &CsiSnapshot::default(), 0);
    tx.receive(&buf[..n], 5, false);
    assert_eq!((tx.reports_rx1, tx.reports_rx2, tx.snapshots_rx), (2, 1, 1));
    assert!(tx.pairer.next_pair(6).is_some());
    assert!(tx.pairer.next_pair(6).is_none());

    let n = build_feature_report(&mut buf, node::TX, &FeatureReport::default(), 0);
    tx.receive(&buf[..n], 5, false);
    assert_eq!(tx.reports_rx2, 1);
    tx.receive(&buf[..n], 5, true);
    assert_eq!(tx.reports_rx2, 2);
    assert_eq!(parse_frame(&buf[..n]).unwrap().0, frame_type::FEATURE_REPORT);
}

fn checks_on(tx: &str, rx1: &str, rx2: &str) -> Vec<(String, bool, String)> {
    let (tx, rx1, rx2) =
        (parse_summary(tx).unwrap(), parse_summary(rx1).unwrap(), parse_summary(rx2).unwrap());
    let f = figures(&tx, &rx1, &rx2);
    let pct: Vec<String> = ratios(&f)
        .iter()
        .map(|r| {
            let v = if r.den > 0 { r.num as f64 / r.den as f64 } else { 0.0 };
            format!("{:.*}", r.decimals as usize, v * 100.0)
        })
        .collect();
    let mut out = Vec::new();
    run_assertions(&f, &pct, get_str(&tx, "final_state"), &mut out);
    out
}

#[test]
fn a_good_run_passes() {
    let out = checks_on(
        &tx_summary(1600, 80, 80, 78, 32, 78, "MOVEMENT"),
        &rx_summary(Role::Rx1, 1600, 0, 0, 0, 1600, 0, 0, 80, 16, 1599),
        &rx_summary(Role::Rx2, 1590, 0, 0, 0, 1590, 0, 0, 79, 15, 1589),
    );
    assert_eq!(out.len(), 14);
    assert!(all_passed(&out));
    assert_eq!(out[0].0, "RATE-1: tx.frames_sent >= 1400");
    assert_eq!(out[0].2, "frames_sent=1600 (required >= 1400)");
    assert_eq!(out[2].2, "rx2=1590/1600 = 99.38%");
    assert_eq!(out[10].2, "reports_rx1+rx2=160/160 = 100.0%");
    assert_eq!(out[11].2, "pairs_total=78 / min(80,80)=80 = 97.5%");
    assert_eq!(out[13].2, "fused_outputs=78, final_state=MOVEMENT");
}

#[test]
fn a_bad_run_fails_where_it_is_bad() {
    let out = checks_on(
        &tx_summary(1000, 10, 40, 5, 7, 0, "UNKNOWN"),
        &rx_summary(Role::Rx1, 989, 1, 0, 11, 1000, 1, 0, 80, 16, 1599),
        &rx_summary(Role::Rx2, 990, 0, 0, 10, 1000, 0, 2, 79, 15, 1589),
    );
    let passed: Vec<bool> = out.iter().map(|c| c.1).collect();
    assert_eq!(
        passed,
        vec![
            false, false, true, false, true, false, true, true, false, false, false, false, false,
            false
        ]
    );
    assert!(!all_passed(&out));
}

#[test]
fn the_last_summary_counts() {
    let lines: Vec<String> =
        ["READY:tx", "SUMMARY|a=1", "x", "SUMMARY|a=2", "bye"].iter().map(|s| s.to_string()).collect();
    assert_eq!(latest_summary(&lines), Some(3));
    assert_eq!(latest_summary(&lines[..1].to_vec()), None);
    assert!(is_ready(&lines));
    assert!(!is_ready(&lines[1..].to_vec()));
}

#[test]
fn the_start_is_agreed_on() {
    assert_eq!(handshake(3, true, true), Handshake::Go);
    assert_eq!(handshake(2, true, false), Handshake::Fail);
    assert_eq!(handshake(2, false, true), Handshake::Fail);
    assert_eq!(handshake(2, false, false), Handshake::Wait);
}

#[test]
fn the_tail_ends_in_silence_or_at_the_cap() {
    assert!(!tail_is_over(true, 0, 0, 500_000));
    assert!(!tail_is_over(false, 19_999, 400_000, 500_000));
    assert!(tail_is_over(false, 20_000, 400_000, 500_000));
    assert!(!tail_is_over(true, 20_000, 400_000, 500_000));
    assert!(tail_is_over(true, 0, 500_000, 500_000));
    assert!(tail_is_over(false, 0, 500_001, 500_000));
}

#[test]
fn a_run_needs_its_checks_and_its_roles() {
    let check = |pass: bool| ("c".to_string(), pass, String::new());
    let ok = vec![check(true), check(true)];
    let bad = vec![check(true), check(false)];
    assert!(run_passed(&ok, &vec![false, false, false]));
    assert!(run_passed(&ok, &vec![]));
    assert!(!run_passed(&ok, &vec![false, false, true]));
    assert!(!run_passed(&bad, &vec![false, false, false]));
}

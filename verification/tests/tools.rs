use esp_radar::analysis::summary::{print_summary, SummaryTexts};
use esp_radar::analysis::{csv_reals, csv_row, Agg, CsvReal, CSV_HEADER};
use esp_radar::capture::{scan, BadReason, Event};
use esp_radar::decoder::{
    dump_payload, hex_capped, is_known_kind, json_bad, json_f32_array, json_frame, json_i16_array,
    json_payload, json_reals, json_short, json_truncated, json_u8_array, kind_name, node_name,
    run_failed, tally, text_bad, text_frame, text_reals, text_truncated, Real,
};
use esp_radar::generator::{
    alternate_source, build_frame, data_frame, draw_feature, draw_snapshot, feature_bytes,
    feature_frame, frame_time_us, parse_mode, period_us, pick, snapshot_bytes, snapshot_frame,
    FrameKind, Mode, Rng, Stream, W,
};
use esp_radar::protocol::payloads::{
    encode_cal_cmd, encode_csi_snapshot, encode_feature_report, parse_feature_report, CalCmd,
    CsiSnapshot, FeatureReport,
};
use esp_radar::protocol::{frame_type, node, parse, Header};
use esp_radar::replay::{due_us, intact_frames, next_loop_offset, span_us};

fn shown(r: &Real) -> String {
    match *r {
        Real::Shortest(b) => format!("{}", f32::from_bits(b)),
        Real::Fixed3(b) => format!("{:.3}", f32::from_bits(b)),
        Real::Fixed1(b) => format!("{:.1}", f32::from_bits(b)),
        Real::Mean1 { sum, count } => {
            format!("{:.1}", if count == 0 { 0.0 } else { sum as f64 / count as f64 })
        }
    }
}

fn json_of(kind: u8, p: &[u8]) -> String {
    let reals: Vec<String> = json_reals(kind, p).iter().map(shown).collect();
    json_payload(kind, p, &reals)
}

fn dump_of(kind: u8, p: &[u8]) -> String {
    let reals: Vec<String> = text_reals(kind, p).iter().map(shown).collect();
    dump_payload(kind, p, &reals)
}

fn frame(kind: u8, src: u8, seq: u32, t_us: u64, payload: &[u8]) -> Vec<u8> {
    let hdr = Header::new(kind, src, node::TX, seq, t_us, payload.len() as u16);
    build_frame(&hdr, payload)
}

fn report(seq: u32, rssi: i16, energy: f32) -> Vec<u8> {
    let r = FeatureReport {
        seq,
        rssi,
        snr: 20,
        motion_energy: energy.to_bits(),
        amp_mean: 2.5f32.to_bits(),
        dominant_freq_hz: 1.0f32.to_bits(),
        ..Default::default()
    };
    encode_feature_report(&r)
}

#[test]
fn scanning_finds_frames_between_garbage() {
    let a = frame(frame_type::CAL_CMD, node::TX, 1, 10, &[1, 2, 3]);
    let mut bad = frame(frame_type::STATUS, node::RX1, 2, 20, &[9; 5]);
    bad[26] ^= 1;
    let b = frame(frame_type::STATUS, node::RX2, 3, 30, &[]);
    let mut s = vec![0xEE; 7];
    s.extend_from_slice(&a);
    s.extend_from_slice(&bad);
    s.extend_from_slice(&b);
    s.extend_from_slice(&a[..20]);
    let events = scan(&s);
    assert_eq!(events.len(), 4);
    match &events[0] {
        Event::Frame { offset, hdr, payload, raw } => {
            assert_eq!((*offset, hdr.seq, *payload), (7, 1, &[1u8, 2, 3][..]));
            assert_eq!(*raw, &a[..]);
        }
        _ => panic!(),
    }
    assert!(matches!(events[1], Event::BadFrame { offset: 34, reason: BadReason::Crc, .. }));
    assert!(matches!(events[2], Event::Frame { offset: 63, .. }));
    assert!(matches!(events[3], Event::Truncated { offset: 87 }));

    let t = tally(&events);
    assert_eq!((t.frames, t.crc_errors, t.unknown_kinds), (2, 1, 0));
    assert!(run_failed(&t, false));
    assert!(!run_failed(&t, true));
}

#[test]
fn a_wrong_version_is_told_apart() {
    let mut f = frame(frame_type::STATUS, node::RX1, 2, 20, &[9; 5]);
    f[4] = 2;
    let events = scan(&f);
    assert!(matches!(events[0], Event::BadFrame { reason: BadReason::Version, .. }));
    assert_eq!(BadReason::Version.as_str(), "version mismatch");
    assert_eq!(BadReason::Crc.as_str(), "crc failure");
}

#[test]
fn absurd_lengths_are_no_frames() {
    let mut f = frame(frame_type::STATUS, node::RX1, 2, 20, &[9; 5]);
    f[20] = 0xFF;
    f[21] = 0xFF;
    assert!(scan(&f).is_empty());
}

#[test]
fn names_of_kinds_and_nodes() {
    assert_eq!(kind_name(frame_type::DATA_FRAME), "DATA");
    assert_eq!(kind_name(frame_type::CP_MESSAGE), "CP_MESSAGE");
    assert_eq!(kind_name(0), "UNKNOWN");
    assert!(is_known_kind(frame_type::CSI_SNAPSHOT) && !is_known_kind(0x16));
    assert_eq!((node_name(1), node_name(2), node_name(3), node_name(4)), ("TX", "RX1", "RX2", "RP2350"));
    assert_eq!(node_name(9), "?");
}

#[test]
fn payloads_as_json() {
    assert_eq!(
        json_of(frame_type::DATA_FRAME, &[20, 3]),
        "{\"tx_power_db\":20,\"flags\":3,\"flags_cal\":1,\"flags_sync\":1}"
    );
    assert_eq!(json_of(frame_type::DATA_FRAME, &[20]), "{\"short\":1}");
    let cmd = CalCmd { stage: 2, action: 3, collect_ms: 800, tx_power_db: -4 };
    assert_eq!(
        json_of(frame_type::CAL_CMD, &encode_cal_cmd(&cmd)),
        "{\"stage\":2,\"action\":3,\"collect_ms\":800,\"tx_power_db\":-4}"
    );
    assert_eq!(json_of(0x99, &[0xAB, 0x01]), "{\"hex\":\"AB01\"}");
    let j = json_of(frame_type::FEATURE_REPORT, &report(7, -55, 0.25));
    assert!(j.starts_with("{\"seq\":7,\"n_frames\":0,\"n_missing\":0,\"rssi\":-55,\"snr\":20,"));
    assert!(j.contains("\"motion_energy\":0.25,"));
    assert!(j.ends_with("\"pca_scores\":[0,0,0,0,0,0,0,0]}"));
    let snap = CsiSnapshot { seq: 5, n_sub: 56, amp_norm: [10; 56], ..Default::default() };
    let j = json_of(frame_type::CSI_SNAPSHOT, &encode_csi_snapshot(&snap));
    assert!(j.contains("\"amp_mean\":10.0,\"spec_mean\":0.0,\"amp_first\":[10,10,10,10,10,10,10,10]"));
    assert!(json_of(frame_type::CAL_RESP, &[0; 17]).contains("\"n_samples\":0"));
    assert!(json_of(frame_type::STATUS, &[1; 22]).starts_with("{\"uptime_s\":16843009,"));
}

#[test]
fn payloads_as_text() {
    assert_eq!(
        dump_of(frame_type::DATA_FRAME, &[20, 1]),
        "  payload: DataPayload tx_power_db=20 flags=0x01 CAL"
    );
    assert_eq!(
        dump_of(frame_type::CAL_CMD, &[0; 3]),
        "  payload: short cal cmd (3 bytes)"
    );
    assert_eq!(dump_of(0x99, &[0xAB]), "  payload: 1 byte(s) hex=AB");
    let d = dump_of(frame_type::FEATURE_REPORT, &report(7, -55, 0.25));
    assert!(d.contains("motion_energy=0.250"));
    assert!(d.contains("pca_scores=[0.000, 0.000"));
}

#[test]
fn frames_as_lines() {
    let f = frame(frame_type::DATA_FRAME, node::TX, 9, 77, &[20, 0]);
    let (h, p) = parse(&f).unwrap();
    let j = json_frame(0, 12, &h, p, &[]);
    assert!(j.starts_with("{\"frame\":0,\"offset\":12,\"magic\":\"0x52445231\",\"version\":1,\"kind\":16,\"kind_name\":\"DATA\""));
    assert!(j.contains("\"crc_ok\":true,\"payload\":{\"tx_power_db\":20"));
    let t = text_frame(3, 12, &h, p, &[]);
    assert!(t.starts_with("FRAME #3 offset=12 magic=0x52445231 version=1 kind=DATA src=TX dst=TX seq=9 t_us=77"));
    assert_eq!(json_truncated(5), "{\"truncated\":true,\"offset\":5}");
    assert!(json_bad(5, &h, BadReason::Crc).ends_with("\"reason\":\"crc failure\"}"));
    assert!(text_bad(5, &h, BadReason::Version).contains("version mismatch"));
    assert!(text_truncated(5).contains("5"));
    assert_eq!(json_short(4), "{\"short\":4}");
}

#[test]
fn arrays_and_hex() {
    assert_eq!(json_u8_array(&[1, 20, 255]), "[1,20,255]");
    assert_eq!(json_i16_array(&[-1, 300]), "[-1,300]");
    assert_eq!(json_f32_array(&["0.5".to_string(), "1".to_string()]), "[0.5,1]");
    assert_eq!(json_u8_array(&[]), "[]");
    let long = hex_capped(&[0x0F; 129]);
    assert_eq!(long.len(), 256 + 3);
    assert!(long.ends_with("0F..."));
}

fn csv_texts(kind: u8, p: &[u8]) -> Vec<String> {
    csv_reals(kind, p)
        .iter()
        .map(|r| match *r {
            CsvReal::Shortest(b) => format!("{}", f32::from_bits(b)),
            CsvReal::Mean3 { sum, count } => format!("{:.3}", sum as f64 / count as f64),
        })
        .collect()
}

#[test]
fn rows_leave_missing_fields_empty() {
    assert_eq!(CSV_HEADER.split(',').count(), 10);
    let p = report(7, -55, 0.25);
    let h = Header::new(frame_type::FEATURE_REPORT, node::RX1, node::TX, 7, 99, 79);
    let row = csv_row(&h, &p, &csv_texts(frame_type::FEATURE_REPORT, &p));
    assert_eq!(row, "7,99,17,2,1,-55,20,0.25,2.5,1");
    let h = Header::new(frame_type::STATUS, node::RX1, node::TX, 7, 99, 0);
    assert_eq!(csv_row(&h, &[], &csv_texts(frame_type::STATUS, &[])), "7,99,20,2,1,,,,,");
    let snap = CsiSnapshot { rssi: -50, snr: 9, n_sub: 56, amp_norm: [3; 56], ..Default::default() };
    let p = encode_csi_snapshot(&snap);
    let h = Header::new(frame_type::CSI_SNAPSHOT, node::RX2, node::TX, 1, 2, 359);
    let row = csv_row(&h, &p, &csv_texts(frame_type::CSI_SNAPSHOT, &p));
    assert_eq!(row, "1,2,21,3,1,-50,9,,3.000,");
}

#[test]
fn a_capture_is_summed_up() {
    let mut agg = Agg::new();
    for (seq, t, rssi) in [(0u32, 1_000u64, -60i16), (1, 3_000, -50), (4, 2_000, -55)] {
        let p = report(seq, rssi, 0.5);
        let h = Header::new(frame_type::FEATURE_REPORT, node::RX1, node::TX, seq, t, 79);
        agg.feed(&h, &p);
    }
    agg.feed(&Header::new(frame_type::DATA_FRAME, node::TX, 0, 0, 1_500, 2), &[1, 2]);
    assert_eq!(agg.total, 4);
    assert_eq!(agg.span_us(), Some(2_000));
    assert_eq!((agg.rssi_count, agg.rssi_min, agg.rssi_max, agg.rssi_sum), (3, -60, -50, -165));
    assert_eq!(agg.kind_counts(), vec![(0x10, 1), (0x11, 3)]);
    assert_eq!(agg.source_counts(), vec![(1, 1), (2, 3)]);
    assert_eq!(agg.sources(), vec![1, 2]);

    let texts = SummaryTexts {
        span_s: "0.002".to_string(),
        frames_per_s: "2000.0".to_string(),
        rssi_mean: "-55.0".to_string(),
        ratios: vec!["0.000".to_string(), "0.400".to_string()],
        motion_min: "0.500".to_string(),
        motion_max: "0.500".to_string(),
        motion_mean: "0.500".to_string(),
        motion_values: vec!["0.500".to_string(); 3],
        dominant_min: "1.000".to_string(),
        dominant_max: "1.000".to_string(),
        dominant_mean: "1.000".to_string(),
        dominant_last: "1.000".to_string(),
    };
    let lines = print_summary(&agg, &texts);
    let want = [
        "analysis of radar capture",
        "total frames: 4",
        "time span: 0.002 s",
        "frames/sec: 2000.0",
        "crc/version errors: 0",
        "truncated frames: 0",
        "per-kind counts:",
        "  DATA (0x10): 1",
        "  FEATURE_REPORT (0x11): 3",
        "per-source counts:",
        "  TX (1): 1",
        "  RX1 (2): 3",
        "rssi (dBm): 3 sample(s) min=-60 max=-50 mean=-55.0",
        "packet loss estimate by seq gaps (per source):",
        "  TX (1): lost=0 total=1 ratio=0.000 gaps=0 resyncs=0",
        "  RX1 (2): lost=2 total=5 ratio=0.400 gaps=1 resyncs=0",
        "motion_energy (feature reports): 3 sample(s)",
        "  min=0.500 max=0.500 mean=0.500",
        "  first 10 samples (t_us, value):",
        "    [0] 1000 0.500",
        "    [1] 3000 0.500",
        "    [2] 2000 0.500",
        "dominant_freq_hz (feature reports): 3 sample(s)",
        "  min=1.000 max=1.000 mean=1.000 last=1.000",
    ];
    assert_eq!(lines, want);
}

#[test]
fn an_empty_capture_has_a_summary() {
    let agg = Agg::new();
    assert_eq!(agg.span_us(), None);
    let t = || String::new();
    let texts = SummaryTexts {
        span_s: "0.000".to_string(),
        frames_per_s: t(),
        rssi_mean: t(),
        ratios: vec![],
        motion_min: t(),
        motion_max: t(),
        motion_mean: t(),
        motion_values: vec![],
        dominant_min: t(),
        dominant_max: t(),
        dominant_mean: t(),
        dominant_last: t(),
    };
    let lines = print_summary(&agg, &texts);
    assert!(lines.contains(&"frames/sec: N/A (single timestamp)".to_string()));
    assert!(lines.contains(&"rssi (dBm): no samples".to_string()));
    assert_eq!(lines.len(), 12);
}

#[test]
fn replay_keeps_time_and_bytes() {
    let a = frame(frame_type::STATUS, node::RX1, 1, 5_000, &[1]);
    let b = frame(frame_type::STATUS, node::RX1, 2, 9_000, &[2]);
    let mut s = a.clone();
    s.extend_from_slice(&b);
    s.extend_from_slice(&b[..10]);
    let events = scan(&s);
    let (frames, skipped) = intact_frames(&events);
    assert_eq!(skipped, 1);
    assert_eq!(frames, vec![(5_000, a), (9_000, b)]);
    assert_eq!(span_us(&frames), 4_000);
    assert_eq!(due_us(9_000, 5_000, 0), 4_000);
    assert_eq!(due_us(4_000, 5_000, 7), 7);
    assert_eq!(next_loop_offset(4_000, 4_000), 8_000);
    assert_eq!(next_loop_offset(u64::MAX, 2), 1);
}

#[test]
fn streams_are_reproducible() {
    let mut a = Rng::new(7);
    let mut b = Rng::new(7);
    for _ in 0..100 {
        assert_eq!(a.next_u64(), b.next_u64());
    }
    assert_eq!(Rng::new(0).next_u64(), Rng::new(1).next_u64());
    let mut r = Rng::new(1);
    assert_eq!(r.next_u64(), 1 ^ (1 << 13) ^ (1 << 17) ^ (1 << 30) ^ (1 << 6) ^ (1 << 23));
    for _ in 0..1000 {
        let v = r.next_i16(-62, -52);
        assert!(v >= -62 && v <= -52);
    }
    let mut c = Rng::new(7);
    let mut d = Rng::new(7);
    assert_eq!(c.next_u32(), d.next_u64() as u32);
}

#[test]
fn modes_mix_frames() {
    assert_eq!(parse_mode("mixed"), Some(Mode::Mixed));
    assert_eq!(parse_mode("data"), Some(Mode::Data));
    assert_eq!(parse_mode("Data"), None);
    assert_eq!(pick(Mode::Mixed, 0), FrameKind::Snapshot);
    assert_eq!(pick(Mode::Mixed, 50), FrameKind::Feature);
    assert_eq!(pick(Mode::Mixed, 51), FrameKind::Data);
    assert_eq!(pick(Mode::Feature, 0), FrameKind::Feature);
    assert_eq!((period_us(200), period_us(0)), (5_000, 1_000_000));
    assert_eq!(frame_time_us(3, 5_000), 1_015_000);
    assert_eq!((alternate_source(0), alternate_source(1)), (node::RX1, node::RX2));
}

#[test]
fn a_stream_is_laid_out() {
    let mut s = Stream::new(Mode::Mixed, 200);
    let jobs: Vec<_> = (0..260).map(|_| s.next_job()).collect();
    assert_eq!((jobs[0].kind, jobs[0].src, jobs[0].t_us), (FrameKind::Snapshot, node::RX1, 1_000_000));
    assert_eq!((jobs[200].kind, jobs[200].src), (FrameKind::Snapshot, node::RX2));
    assert_eq!((jobs[50].kind, jobs[50].src), (FrameKind::Feature, node::RX1));
    assert_eq!((jobs[100].kind, jobs[100].src), (FrameKind::Feature, node::RX2));
    assert_eq!((jobs[7].kind, jobs[7].src, jobs[7].seq), (FrameKind::Data, node::TX, 7));
    assert_eq!(jobs[259].t_us, 1_000_000 + 259 * 5_000);
}

#[test]
fn draws_stay_in_their_ranges() {
    let mut rng = Rng::new(3);
    let mut same = Rng::new(3);
    let first = same.next_u32();
    for k in 0..200 {
        let d = draw_feature(&mut rng);
        if k == 0 {
            assert_eq!(d.motion, first);
        }
        assert!(d.n_missing < 3 && d.rssi >= -62 && d.rssi <= -52);
        assert!(d.snr >= 20 && d.snr < 30 && d.csi_quality >= 70 && d.csi_quality < 96);
        assert!(d.sat_score < 6 && d.dyn_range >= 60 && d.dyn_range <= 90 && d.flags < 2);
    }
    let d = draw_snapshot(&mut rng);
    assert_eq!((d.samples.len(), d.spectrum.len()), (168, 64));
    assert!(d.snr >= 22 && d.snr < 30 && d.csi_quality >= 75 && d.csi_quality < 96);
}

#[test]
fn generated_frames_parse() {
    let f = data_frame(500, 8, 99);
    let (h, p) = parse(&f).unwrap();
    assert_eq!((h.kind, h.src_node, h.dst_node, h.seq, h.t_us), (0x10, 1, 0, 8, 99));
    assert_eq!(p, &[25, 2]);
    assert_eq!(data_frame(1, 8, 99)[24..], [21, 0]);

    let r = FeatureReport { seq: 4, rssi: -60, ..Default::default() };
    assert_eq!(feature_bytes(&r), encode_feature_report(&r));
    let f = feature_frame(node::RX2, &r, 4, 5);
    let (h, p) = parse(&f).unwrap();
    assert_eq!((h.kind, h.src_node), (frame_type::FEATURE_REPORT, node::RX2));
    assert_eq!(parse_feature_report(p).unwrap().rssi, -60);

    let s = CsiSnapshot { seq: 4, iq: [-2; 112], ..Default::default() };
    assert_eq!(snapshot_bytes(&s), encode_csi_snapshot(&s));
    assert_eq!(snapshot_frame(node::RX1, &s, 4, 5).len(), 383);
}

#[test]
fn the_writer_is_little_endian() {
    let mut w = W { buf: vec![] };
    w.u8(1);
    w.i8(-1);
    w.i16(-2);
    w.u32(0x0102_0304);
    w.single(1.5f32.to_bits());
    assert_eq!(w.buf, vec![1, 255, 0xFE, 0xFF, 4, 3, 2, 1, 0, 0, 0xC0, 0x3F]);
}

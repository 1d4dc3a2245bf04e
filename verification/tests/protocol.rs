use esp_radar::crc::{crc16, crc16_ext};
use esp_radar::protocol::payloads::{
    encode_cal_cmd, encode_cal_resp, encode_csi_snapshot, encode_data_payload,
    encode_feature_report, parse_cal_cmd, parse_cal_resp, parse_csi_snapshot, parse_data_payload,
    parse_feature_report, parse_status, CalCmd, CalResp, CsiSnapshot, DataPayload, FeatureReport,
    CAL_CMD_SIZE, CAL_RESP_SIZE, DATA_SIZE, FEATURE_SIZE, SNAPSHOT_SIZE, STATUS_SIZE,
};
use esp_radar::protocol::{
    build, cp, frame_type, node, parse, snapshot_flags, Header, HEADER_SIZE, MAX_PAYLOAD,
    N_SPEC_BINS, N_SUBCARRIERS,
};

#[test]
fn xmodem_vector() {
    assert_eq!(crc16(b"123456789"), 0x31c3);
}

#[test]
fn incremental_matches_whole() {
    let data = b"the quick brown fox jumps over the lazy dog";
    let whole = crc16(data);
    let mut inc = crc16(&data[..10]);
    inc = crc16_ext(inc, &data[10..]);
    assert_eq!(inc, whole);
}

#[test]
fn crc_known_vector() {
    assert_eq!(crc16(b"123456789"), 0x31C3);
}

#[test]
fn crc_of_nothing_is_zero() {
    assert_eq!(crc16(&[]), 0);
    assert_eq!(crc16(&[0x01]), 0x1021);
}

#[test]
fn csi_snapshot_size_fits_max_payload() {
    assert!(SNAPSHOT_SIZE <= MAX_PAYLOAD, "snapshot too large for MAX_PAYLOAD");
    assert_eq!(encode_csi_snapshot(&CsiSnapshot::default()).len(), SNAPSHOT_SIZE);
}

#[test]
fn csi_snapshot_roundtrip() {
    let mut iq = [0i16; N_SUBCARRIERS * 2];
    iq[0] = 1234;
    iq[1] = -5678;
    iq[N_SUBCARRIERS * 2 - 1] = 42;
    let mut amp = [0u8; N_SUBCARRIERS];
    amp[3] = 200;
    amp[55] = 7;
    let mut spec = [0u8; N_SPEC_BINS];
    spec[63] = 250;
    let snap = CsiSnapshot {
        seq: 1234,
        rssi: -58,
        snr: 24,
        csi_quality: 92,
        noise_floor: (-97.5f32).to_bits(),
        flags: snapshot_flags::OVERFLOW,
        n_sub: 56,
        reserved: 0,
        iq,
        amp_norm: amp,
        spec,
    };
    let payload = encode_csi_snapshot(&snap);
    let hdr = Header::new(
        frame_type::CSI_SNAPSHOT,
        node::RX2,
        node::TX,
        1234,
        99,
        payload.len() as u16,
    );
    let mut buf = [0u8; 1024];
    let n = build(&mut buf, &hdr, &payload);
    assert!(n > 0);

    let (parsed, pl) = parse(&buf[..n]).expect("snapshot frame parses");
    assert_eq!(parsed.kind, frame_type::CSI_SNAPSHOT);
    assert_eq!(parsed.src_node, node::RX2);
    let back = parse_csi_snapshot(pl).unwrap();
    assert_eq!(back.seq, 1234);
    assert_eq!(back.iq[0], 1234);
    assert_eq!(back.iq[1], -5678);
    assert_eq!(back.iq[N_SUBCARRIERS * 2 - 1], 42);
    assert_eq!(back.amp_norm[3], 200);
    assert_eq!(back.spec[63], 250);
    assert_eq!(back.amp_norm[55], 7);
    assert_eq!(back.rssi, -58);
    assert_eq!(f32::from_bits(back.noise_floor), -97.5);
}

#[test]
fn csi_snapshot_rejects_short_payload() {
    assert!(parse_csi_snapshot(&[0u8; 8]).is_none());
}

#[test]
fn build_parse_roundtrip() {
    let mut buf = [0u8; 512];
    let mut report = FeatureReport {
        seq: 42,
        n_frames: 200,
        motion_energy: 1.5f32.to_bits(),
        rssi: -55,
        ..Default::default()
    };
    report.pca_scores[0] = 0.25f32.to_bits();
    let payload = encode_feature_report(&report);
    let hdr = Header::new(
        frame_type::FEATURE_REPORT,
        node::RX1,
        node::TX,
        42,
        123456789,
        payload.len() as u16,
    );
    let n = build(&mut buf, &hdr, &payload);
    assert!(n > 0);

    let (parsed, pl) = parse(&buf[..n]).expect("frame parses");
    assert_eq!(parsed.kind, frame_type::FEATURE_REPORT);
    assert_eq!(parsed.seq, 42);
    assert_eq!(parsed.src_node, node::RX1);
    let back = parse_feature_report(pl).unwrap();
    assert_eq!(back.seq, 42);
    let energy = f32::from_bits(back.motion_energy);
    assert!((energy - 1.5).abs() < 1e-6, "energy {}", energy);
    assert_eq!(f32::from_bits(back.pca_scores[0]), 0.25);
}

#[test]
fn parse_rejects_bad_crc() {
    let mut buf = [0u8; 64];
    let hdr = Header::new(frame_type::STATUS, node::TX, node::RX1, 1, 0, 0);
    let n = build(&mut buf, &hdr, &[]);
    buf[0] ^= 0xFF;
    assert!(parse(&buf[..n]).is_none());
}

#[test]
fn roundtrip() {
    let mut buf = [0u8; 256];
    let hdr = cp::Header {
        magic: cp::MAGIC,
        version: cp::VERSION,
        msg_type: cp::msg_type::HELLO_ACK,
        ..Default::default()
    };
    let ack = cp::HelloAck {
        caps: cp::cap::STFT | cp::cap::PCA,
        max_rate_hz: 100,
        fft_size_log2: 8,
        reserved: [0; 3],
        fw_version: 0x0100_0001,
    };
    let pl = cp::encode_hello_ack(&ack);
    let n = cp::build(&mut buf, &hdr, &pl);
    let (parsed, pl2) = cp::parse(&buf[..n]).expect("parse");
    assert_eq!(parsed.msg_type, cp::msg_type::HELLO_ACK);
    let back = esp_radar::rp2350::link::parse_ack(pl2).unwrap();
    assert_eq!(back.caps, cp::cap::STFT | cp::cap::PCA);
    assert_eq!(back.fw_version, 0x0100_0001);
}

#[test]
fn wire_sizes_are_fixed() {
    assert_eq!(HEADER_SIZE, 24);
    assert_eq!(encode_data_payload(&DataPayload::default()).len(), DATA_SIZE);
    assert_eq!(encode_feature_report(&FeatureReport::default()).len(), FEATURE_SIZE);
    assert_eq!(encode_cal_cmd(&CalCmd::default()).len(), CAL_CMD_SIZE);
    assert_eq!(encode_cal_resp(&CalResp::default()).len(), CAL_RESP_SIZE);
    assert_eq!(STATUS_SIZE, 22);
}

#[test]
fn header_bytes_are_little_endian() {
    let mut buf = [0u8; 32];
    let hdr = Header::new(0x12, 1, 2, 0x0403_0201, 0x0807_0605_0403_0201, 0);
    assert_eq!(build(&mut buf, &hdr, &[]), 24);
    assert_eq!(&buf[..4], &0x5244_5231u32.to_le_bytes());
    assert_eq!(&buf[4..8], &[1, 0x12, 1, 2]);
    assert_eq!(&buf[8..12], &[1, 2, 3, 4]);
    assert_eq!(&buf[12..20], &[1, 2, 3, 4, 5, 6, 7, 8]);
    assert_eq!(&buf[20..22], &[0, 0]);
}

#[test]
fn too_small_a_buffer_stays_untouched() {
    let mut buf = [7u8; 25];
    let hdr = Header::new(0x12, 1, 2, 3, 4, 2);
    assert_eq!(build(&mut buf, &hdr, &[1, 2]), 0);
    assert_eq!(buf, [7u8; 25]);
}

#[test]
fn every_corrupt_byte_is_rejected() {
    let mut buf = [0u8; 64];
    let hdr = Header::new(frame_type::CAL_CMD, node::TX, node::RX1, 9, 77, 4);
    let n = build(&mut buf, &hdr, &[1, 2, 3, 4]);
    assert_eq!(n, 28);
    for i in 0..n {
        for bit in 0..8 {
            let mut bad = buf;
            bad[i] ^= 1 << bit;
            assert!(parse(&bad[..n]).is_none(), "byte {} bit {}", i, bit);
        }
    }
    assert!(parse(&buf[..n]).is_some());
    assert!(parse(&buf[..n - 1]).is_none());
}

#[test]
fn calibration_messages_round_trip() {
    let cmd = CalCmd { stage: 2, action: 1, collect_ms: 800, tx_power_db: -3 };
    let back = parse_cal_cmd(&encode_cal_cmd(&cmd)).unwrap();
    assert_eq!((back.stage, back.action, back.collect_ms, back.tx_power_db), (2, 1, 800, -3));
    assert!(parse_cal_cmd(&[0u8; 7]).is_none());

    let resp = CalResp {
        stage: 3,
        result: 0,
        rssi: -61,
        snr: -7,
        csi_quality: 90,
        sat_score: 12,
        dyn_range: 44,
        reserved: 0,
        noise_floor: (-95.5f32).to_bits(),
        n_samples: 321,
    };
    let back = parse_cal_resp(&encode_cal_resp(&resp)).unwrap();
    assert_eq!((back.stage, back.rssi, back.snr, back.n_samples), (3, -61, -7, 321));
    assert_eq!(f32::from_bits(back.noise_floor), -95.5);
    assert!(parse_cal_resp(&[0u8; 16]).is_none());
}

#[test]
fn data_payload_round_trips() {
    let d = DataPayload { tx_power_db: 20, flags: 3 };
    let back = parse_data_payload(&encode_data_payload(&d)).unwrap();
    assert_eq!((back.tx_power_db, back.flags), (20, 3));
    assert!(parse_data_payload(&[1]).is_none());
    assert!(parse_status(&[0u8; 21]).is_none());
    assert!(parse_status(&[0u8; 22]).is_some());
}

#[test]
fn the_payload_sizes_the_frame() {
    let mut dst = [0u8; 64];
    let hdr = Header::new(frame_type::STATUS, node::TX, node::RX1, 1, 0, 0);
    assert_eq!(build(&mut dst, &hdr, &[1, 2, 3, 4]), 28);
    let (h, p) = parse(&dst[..28]).unwrap();
    assert_eq!(h.payload_len, 4);
    assert_eq!(p, &[1, 2, 3, 4]);
    assert_eq!(&dst[28..], &[0u8; 36]);

    let long = Header::new(frame_type::STATUS, node::TX, node::RX1, 1, 0, 500);
    let mut exact = [0u8; 26];
    assert_eq!(build(&mut exact, &long, &[8, 9]), 26);
    assert_eq!(parse(&exact).unwrap().1, &[8, 9]);
    assert_eq!(build(&mut exact, &long, &[7, 8, 9]), 0);
    assert_eq!(build(&mut exact[..23], &long, &[]), 0);
    assert_eq!(build(&mut exact, &long, &vec![0u8; 70_000]), 0);
    assert_eq!(parse(&exact).unwrap().1, &[8, 9]);
}

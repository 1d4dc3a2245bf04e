use esp_radar::protocol::payloads::{parse_feature_report, FeatureReport};
use esp_radar::protocol::{build, cp, frame_type, node, Header};
use esp_radar::rp2350::framer as co_framer;
use esp_radar::rp2350::framer::FrameDecoder;
use esp_radar::rp2350::session::{compatible, SeqCounter};
use esp_radar::transport::build_feature_report;
use esp_radar::transport::framer as radar_framer;
use esp_radar::transport::framer::{frames_of, RadarFrameDecoder};

fn co_frame(kind: u8, payload: &[u8]) -> Vec<u8> {
    let mut buf = [0u8; co_framer::MAX_FRAME];
    let hdr = cp::Header {
        magic: cp::MAGIC,
        version: cp::VERSION,
        msg_type: kind,
        flags: 0,
        reserved: 0,
        seq: 7,
        payload_len: 0,
        crc16: 0,
    };
    let n = cp::build(&mut buf, &hdr, payload);
    buf[..n].to_vec()
}

fn radar_frame(kind: u8, src: u8, payload: &[u8]) -> Vec<u8> {
    let mut buf = [0u8; radar_framer::MAX_FRAME];
    let hdr = Header::new(kind, src, node::TX, 7, 0, payload.len() as u16);
    let n = build(&mut buf, &hdr, payload);
    buf[..n].to_vec()
}

#[test]
fn framer_single_frame() {
    let mut d = FrameDecoder::new();
    d.feed(&co_frame(cp::msg_type::FEATURES, &[1, 2, 3, 4]));
    let f = d.next().expect("one frame");
    assert_eq!(f.kind(), cp::msg_type::FEATURES);
    assert_eq!(f.seq(), 7);
    assert_eq!(f.payload, vec![1, 2, 3, 4]);
    assert!(d.next().is_none());
    assert_eq!(d.buffered(), 0);
}

#[test]
fn framer_split_across_feeds() {
    let bytes = co_frame(cp::msg_type::STATUS, &[9, 9, 9]);
    let mut d = FrameDecoder::new();
    assert!(d.next().is_none());
    d.feed(&bytes[..5]);
    assert!(d.next().is_none(), "header incomplete");
    d.feed(&bytes[5..]);
    let f = d.next().expect("frame completes once last bytes arrive");
    assert_eq!(f.kind(), cp::msg_type::STATUS);
    assert_eq!(f.payload, vec![9, 9, 9]);
    assert!(d.next().is_none());
}

#[test]
fn framer_garbage_prefix_resyncs() {
    let bytes = co_frame(cp::msg_type::CONFIG, &[0xAA]);
    let mut noisy = vec![0u8; 3];
    noisy.extend_from_slice(&[0xFF, 0x00, 0x42]);
    noisy.extend_from_slice(&bytes);
    let mut d = FrameDecoder::new();
    d.feed(&noisy);
    let f = d.next().expect("rescans past garbage");
    assert_eq!(f.kind(), cp::msg_type::CONFIG);
    assert_eq!(f.payload, vec![0xAA]);
}

#[test]
fn framer_concatenated_frames() {
    let a = co_frame(cp::msg_type::RAW_CSI, &[1, 1]);
    let b = co_frame(cp::msg_type::SPECTROGRAM, &[2, 2, 2]);
    let mut d = FrameDecoder::new();
    d.feed(&a);
    d.feed(&b);
    assert_eq!(d.next().unwrap().kind(), cp::msg_type::RAW_CSI);
    assert_eq!(d.next().unwrap().kind(), cp::msg_type::SPECTROGRAM);
    assert!(d.next().is_none());
}

#[test]
fn framer_corrupt_frame_dropped_and_next_survives() {
    let mut bad = co_frame(cp::msg_type::ERROR, &[0x55]);
    let n = bad.len();
    bad[n - 1] ^= 0xFF;
    let good = co_frame(cp::msg_type::STATUS, &[0x42]);
    let mut d = FrameDecoder::new();
    d.feed(&bad);
    d.feed(&good);
    let f = d.next().expect("resyncs past bad-CRC frame");
    assert_eq!(f.kind(), cp::msg_type::STATUS);
    assert_eq!(f.payload, vec![0x42]);
}

#[test]
fn framer_buffer_stays_bounded_under_garbage_burst() {
    let mut d = FrameDecoder::new();
    for _ in 0..(co_framer::MAX_BUFFER / 16 + 4) {
        d.feed(&[0x11; 16]);
    }
    assert!(d.buffered() <= co_framer::MAX_BUFFER, "buffered = {}", d.buffered());
    assert!(d.next().is_none());
}

#[test]
fn framer_empty_payload_roundtrips() {
    let bytes = co_frame(cp::msg_type::HELLO, &[]);
    let mut d = FrameDecoder::new();
    d.feed(&bytes);
    let f = d.next().expect("empty-payload frame");
    assert_eq!(f.kind(), cp::msg_type::HELLO);
    assert!(f.payload.is_empty());
}

#[test]
fn accepts_matching_version() {
    assert!(compatible(1, 1));
}

#[test]
fn rejects_different_or_older() {
    assert!(!compatible(1, 2), "future version not yet known");
    assert!(!compatible(2, 1), "local newer than remote");
    assert!(!compatible(1, 0), "below minimum");
}

#[test]
fn seq_starts_at_one_and_advances() {
    let mut s = SeqCounter::new();
    assert_eq!(s.next(), 1);
    assert_eq!(s.next(), 2);
    assert_eq!(s.next(), 3);
}

#[test]
fn single_frame() {
    let mut d = RadarFrameDecoder::new();
    d.feed(&radar_frame(frame_type::FEATURE_REPORT, node::RX1, &[1, 2, 3, 4]));
    let f = d.next().expect("one frame");
    assert_eq!(f.kind(), frame_type::FEATURE_REPORT);
    assert_eq!(f.src(), node::RX1);
    assert_eq!(f.seq(), 7);
    assert_eq!(f.payload, vec![1, 2, 3, 4]);
    assert!(d.next().is_none());
    assert_eq!(d.buffered(), 0);
}

#[test]
fn split_across_feeds() {
    let bytes = radar_frame(frame_type::CAL_RESP, node::RX2, &[9, 9, 9]);
    let mut d = RadarFrameDecoder::new();
    assert!(d.next().is_none());
    d.feed(&bytes[..5]);
    assert!(d.next().is_none(), "header incomplete");
    d.feed(&bytes[5..]);
    let f = d.next().expect("frame completes once last bytes arrive");
    assert_eq!(f.kind(), frame_type::CAL_RESP);
    assert_eq!(f.src(), node::RX2);
    assert_eq!(f.payload, vec![9, 9, 9]);
    assert!(d.next().is_none());
}

#[test]
fn garbage_prefix_resyncs() {
    let bytes = radar_frame(frame_type::CSI_SNAPSHOT, node::RX1, &[0xAA]);
    let mut noisy = vec![0u8; 3];
    noisy.extend_from_slice(&[0xFF, 0x00, 0x42]);
    noisy.extend_from_slice(&bytes);
    let mut d = RadarFrameDecoder::new();
    d.feed(&noisy);
    let f = d.next().expect("rescans past garbage");
    assert_eq!(f.kind(), frame_type::CSI_SNAPSHOT);
    assert_eq!(f.payload, vec![0xAA]);
}

#[test]
fn concatenated_frames() {
    let a = radar_frame(frame_type::FEATURE_REPORT, node::RX1, &[1, 1]);
    let b = radar_frame(frame_type::CAL_CMD, node::TX, &[2, 2, 2]);
    let mut d = RadarFrameDecoder::new();
    d.feed(&a);
    d.feed(&b);
    assert_eq!(d.next().unwrap().kind(), frame_type::FEATURE_REPORT);
    assert_eq!(d.next().unwrap().kind(), frame_type::CAL_CMD);
    assert!(d.next().is_none());
}

#[test]
fn corrupt_frame_dropped_and_next_survives() {
    let mut bad = radar_frame(frame_type::CSI_SNAPSHOT, node::RX2, &[0x55]);
    let n = bad.len();
    bad[n - 1] ^= 0xFF;
    let good = radar_frame(frame_type::FEATURE_REPORT, node::RX1, &[0x42]);
    let mut d = RadarFrameDecoder::new();
    d.feed(&bad);
    d.feed(&good);
    let f = d.next().expect("resyncs past bad-CRC frame");
    assert_eq!(f.kind(), frame_type::FEATURE_REPORT);
    assert_eq!(f.payload, vec![0x42]);
}

#[test]
fn buffer_stays_bounded_under_garbage_burst() {
    let mut d = RadarFrameDecoder::new();
    for _ in 0..(radar_framer::MAX_BUFFER / 16 + 4) {
        d.feed(&[0x11; 16]);
    }
    assert!(d.buffered() <= radar_framer::MAX_BUFFER, "buffered = {}", d.buffered());
    assert!(d.next().is_none());
}

#[test]
fn empty_payload_roundtrips() {
    let bytes = radar_frame(frame_type::STATUS, node::TX, &[]);
    let mut d = RadarFrameDecoder::new();
    d.feed(&bytes);
    let f = d.next().expect("empty-payload frame");
    assert_eq!(f.kind(), frame_type::STATUS);
    assert!(f.payload.is_empty());
}

#[test]
fn real_feature_report_roundtrips() {
    let report = FeatureReport {
        seq: 12_345,
        n_frames: 20,
        n_missing: 1,
        rssi: -54,
        motion_energy: 0.37f32.to_bits(),
        ..Default::default()
    };
    let mut buf = [0u8; radar_framer::MAX_FRAME];
    let n = build_feature_report(&mut buf, node::RX1, &report, 1_000_000);
    let mut d = RadarFrameDecoder::new();
    d.feed(&buf[..n]);
    let f = d.next().expect("real report frame");
    assert_eq!(f.kind(), frame_type::FEATURE_REPORT);
    assert_eq!(f.src(), node::RX1);
    assert_eq!(f.seq(), report.seq);
    let decoded = parse_feature_report(&f.payload).expect("parse payload");
    assert_eq!(decoded.seq, 12_345);
    assert_eq!(decoded.rssi, -54);
    assert!((f32::from_bits(decoded.motion_energy) - 0.37).abs() < 1e-6);
}

#[test]
fn cutting_a_stream_changes_nothing() {
    let mut stream = radar_frame(frame_type::CAL_CMD, node::TX, &[1, 2, 3]);
    stream.extend_from_slice(&[0x31, 0x52, 0x00]);
    stream.extend_from_slice(&radar_frame(frame_type::STATUS, node::RX1, &[4; 60]));
    let whole = frames_of(&stream);
    assert_eq!(whole.len(), 2);
    for cut in 1..stream.len() {
        let mut d = RadarFrameDecoder::new();
        d.feed(&stream[..cut]);
        let mut got = d.drain();
        d.feed(&stream[cut..]);
        got.append(&mut d.drain());
        assert_eq!(got.len(), 2, "cut at {}", cut);
        assert_eq!(got[0].payload, vec![1, 2, 3]);
        assert_eq!(got[1].payload, vec![4; 60]);
    }
}

#[test]
fn a_long_recording_loses_no_frame() {
    let mut stream = Vec::new();
    for i in 0..200u8 {
        stream.extend_from_slice(&radar_frame(frame_type::STATUS, node::RX1, &vec![i; 500]));
    }
    let frames = frames_of(&stream);
    assert_eq!(frames.len(), 200);
    assert_eq!(frames[199].payload[0], 199);
}

#[test]
fn an_overlong_feed_keeps_the_latest_bytes() {
    let mut d = RadarFrameDecoder::new();
    let frame = radar_frame(frame_type::STATUS, node::RX1, &[5; 10]);
    let mut burst = vec![0u8; 5000];
    burst.extend_from_slice(&frame);
    d.feed(&burst);
    assert_eq!(d.buffered(), radar_framer::MAX_BUFFER);
    assert_eq!(d.next().unwrap().payload, vec![5; 10]);
}

#[test]
fn oversized_length_is_no_frame() {
    let mut bytes = radar_frame(frame_type::STATUS, node::RX1, &[1, 2]);
    bytes[20] = 0x01;
    bytes[21] = 0x02;
    let mut d = RadarFrameDecoder::new();
    d.feed(&bytes);
    assert!(d.next().is_none());
    assert!(d.buffered() < 24);
}

#[test]
fn pieces_are_kept_like_one_feed() {
    let bytes: Vec<u8> = (0..5_000u32).map(|i| (i % 251) as u8).collect();
    for cut in [0, 1, 700, 1_072, 2_080, 4_999, 5_000] {
        let (mut whole, mut parts) = (RadarFrameDecoder::new(), RadarFrameDecoder::new());
        whole.feed(&bytes);
        parts.feed(&bytes[..cut]);
        assert_eq!(parts.buffered(), cut.min(1_072));
        parts.feed(&bytes[cut..]);
        assert_eq!((whole.buffered(), parts.buffered()), (1_072, 1_072));

        let (mut whole, mut parts) = (FrameDecoder::new(), FrameDecoder::new());
        whole.feed(&bytes);
        parts.feed(&bytes[..cut]);
        assert_eq!(parts.buffered(), cut.min(2_080));
        parts.feed(&bytes[cut..]);
        assert_eq!((whole.buffered(), parts.buffered()), (2_080, 2_080));
    }

    // A frame survives at the end of the buffer, wherever the stream is cut.
    let frame = radar_frame(frame_type::STATUS, node::RX1, &[1, 2, 3]);
    let mut stream = vec![0u8; 3_000];
    stream.extend_from_slice(&frame);
    for cut in [10, 2_999, 3_001, 3_026] {
        let mut d = RadarFrameDecoder::new();
        d.feed(&stream[..cut]);
        d.feed(&stream[cut..]);
        assert_eq!(d.next().unwrap().payload, vec![1, 2, 3]);
    }
}

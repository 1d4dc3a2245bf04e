use esp_radar::ota::{
    begin_size, check_complete, check_length, mark_app_valid, OtaError, OtaWriter, UploadError,
    MAX_IMAGE_BYTES, MIN_IMAGE_BYTES,
};
use esp_radar::protocol::cp;
use esp_radar::rp2350::link::{
    deadline_after, parse_ack, parse_status, CoError, CoState, Link, Waiting,
};

fn message(kind: u8, payload: &[u8]) -> Vec<u8> {
    let mut buf = [0u8; 1100];
    let hdr = cp::Header {
        magic: cp::MAGIC,
        version: cp::VERSION,
        msg_type: kind,
        ..Default::default()
    };
    let n = cp::build(&mut buf, &hdr, payload);
    buf[..n].to_vec()
}

fn ack() -> Vec<u8> {
    cp::encode_hello_ack(&cp::HelloAck {
        caps: cp::cap::PCA,
        max_rate_hz: 100,
        fft_size_log2: 8,
        reserved: [0; 3],
        fw_version: 7,
    })
}

#[test]
fn a_coprocessor_introduces_itself() {
    let mut l = Link::new();
    let hello = l.probe();
    assert_eq!(cp::parse(&hello).unwrap().0.msg_type, cp::msg_type::HELLO);
    assert!(matches!(l.wait_for(cp::msg_type::HELLO_ACK, 0, 500), Waiting::Read));
    let mut bytes = message(cp::msg_type::STATUS, &[0; 8]);
    bytes.extend_from_slice(&message(cp::msg_type::HELLO_ACK, &ack()));
    l.feed(&bytes);
    match l.wait_for(cp::msg_type::HELLO_ACK, 10, 500) {
        Waiting::Got(f) => {
            let state = l.probe_reply(Some(f));
            assert_eq!(state, CoState::Present { caps: cp::cap::PCA, fw_version: 7 });
        }
        _ => panic!(),
    }
    assert!(l.is_present());
    let sent = l.push(cp::msg_type::FEATURES, &[1, 2, 3]).unwrap();
    let (h, p) = cp::parse(&sent).unwrap();
    assert_eq!((h.msg_type, p), (cp::msg_type::FEATURES, &[1u8, 2, 3][..]));
    assert_eq!(h.seq, cp::parse(&hello).unwrap().0.seq + 1);
}

#[test]
fn silence_means_absent() {
    let mut l = Link::new();
    l.probe();
    assert!(matches!(l.wait_for(cp::msg_type::HELLO_ACK, 500, 500), Waiting::Expired));
    assert_eq!(l.probe_reply(None), CoState::Absent);
    assert!(!l.is_present());
    assert!(l.push(cp::msg_type::FEATURES, &[1]).is_ok());
}

#[test]
fn too_long_a_payload_is_refused() {
    let mut l = Link::new();
    l.feed(&message(cp::msg_type::HELLO_ACK, &ack()));
    if let Waiting::Got(f) = l.wait_for(cp::msg_type::HELLO_ACK, 0, 1) {
        l.probe_reply(Some(f));
    }
    assert_eq!(l.push(cp::msg_type::FEATURES, &[0; 1025]), Err(CoError::BadPayload));
    assert!(l.push(cp::msg_type::FEATURES, &[0; 1024]).is_ok());
}

#[test]
fn any_frame_can_be_waited_for() {
    let mut l = Link::new();
    let ask = l.poll_status();
    assert_eq!(cp::parse(&ask).unwrap().0.msg_type, cp::msg_type::STATUS);
    l.feed(&message(cp::msg_type::ERROR, &[5]));
    match l.drain(0, 100) {
        Waiting::Got(f) => assert_eq!(f.kind(), cp::msg_type::ERROR),
        _ => panic!(),
    }
    assert!(matches!(l.drain(0, 100), Waiting::Read));
    assert_eq!(deadline_after(10, 500), 510);
    assert_eq!(deadline_after(u64::MAX, 500), u64::MAX);
}

#[test]
fn replies_are_read() {
    assert_eq!(parse_ack(&ack()).unwrap().max_rate_hz, 100);
    assert!(parse_ack(&ack()[..11]).is_none());
    let s = parse_status(&[1, 0, 0, 0, 2, 0, 3, 4]).unwrap();
    assert_eq!((s.uptime_s, s.heap_free, s.queue_depth_pct, s.dsp_load_pct), (1, 2, 3, 4));
    assert!(parse_status(&[0; 7]).is_none());
}

#[test]
fn link_errors_have_messages() {
    assert_eq!(CoError::NotPresent.text(), "coprocessor not present");
    assert_eq!(CoError::Version(3).text(), "coprocessor protocol version 3 unsupported");
    assert_eq!(CoError::Timeout.text(), "coprocessor did not answer in time");
    assert_eq!(CoError::BadPayload.text(), "coprocessor payload malformed");
    assert_eq!(CoError::Uart("ESP_ERR_TIMEOUT".to_string()).text(), "uart error: ESP_ERR_TIMEOUT");
}

#[test]
fn an_update_is_written_and_finished() {
    assert_eq!(begin_size(1000), 1000);
    assert_eq!(begin_size(0), usize::MAX - 1);
    assert!(matches!(OtaWriter::begin(false, 0), Err(OtaError::NoOtaPartition)));
    assert!(matches!(OtaWriter::begin(true, 5), Err(OtaError::Begin(5))));
    let mut w = OtaWriter::begin(true, 0).unwrap();
    w.write(100, 0).unwrap();
    assert!(matches!(w.write(100, 7), Err(OtaError::Write(7))));
    assert_eq!(w.written(), 100);
    assert!(check_complete(&w, 100).is_ok());
    let e = check_complete(&w, 101).unwrap_err();
    assert!(matches!(e, UploadError::Short { total: 100, expected: 101 }));
    assert!(e.text().contains("short upload: 100"));
    assert!(w.finish(0, 0).is_ok());
}

#[test]
fn update_errors_are_told_apart() {
    let w = || OtaWriter::begin(true, 0).unwrap();
    assert!(matches!(w().finish(3, 0), Err(OtaError::End(3))));
    assert!(matches!(w().finish(0, 4), Err(OtaError::SetBoot(4))));
    assert!(matches!(w().abort(5), Err(OtaError::Abort(5))));
    assert!(w().abort(0).is_ok());
    assert_eq!(mark_app_valid(0), Ok(()));
    assert_eq!(mark_app_valid(9), Err(9));
    assert_eq!(OtaError::NoOtaPartition.text(), "no inactive OTA partition available");
    assert_eq!(OtaError::Begin(0x105).text(), "esp_ota_begin failed (0x00000105)");
    assert_eq!(OtaError::Write(-1).text(), "esp_ota_write failed (0xffffffff)");
}

#[test]
fn uploads_need_a_plausible_length() {
    assert!(matches!(check_length(None), Err(UploadError::MissingLength)));
    assert!(matches!(check_length(Some("lots")), Err(UploadError::UnparseableLength)));
    assert!(matches!(check_length(Some("15")), Err(UploadError::ImplausibleSize(15))));
    assert_eq!(check_length(Some("16")).unwrap(), MIN_IMAGE_BYTES);
    assert_eq!(check_length(Some("2097152")).unwrap(), MAX_IMAGE_BYTES);
    assert!(check_length(Some("2097153")).is_err());
    assert!(UploadError::Begin(OtaError::Begin(1)).text().starts_with("ota begin: "));
    assert!(UploadError::MissingLength.text().contains("Content-Length"));
}

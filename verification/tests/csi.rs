use esp_radar::csi::wifi::{captured_len, check, decode_info, CsiConfig, CsiError};
use esp_radar::csi::{CsiInfo, CsiRing, MAX_CSI_LEN};

#[test]
fn push_pop_roundtrip() {
    let mut ring = CsiRing::new(8);
    let info = CsiInfo {
        rssi: -55,
        noise_floor: -98,
        channel: 6,
        mac: [1, 2, 3, 4, 5, 6],
        rx_seq: 7,
        ..Default::default()
    };
    let buf: Vec<i8> = (0..40).map(|i| (i % 7) as i8).collect();
    ring.push(info, &buf);
    assert_eq!(ring.len(), 1);
    let f = ring.pop().expect("frame");
    assert_eq!(f.info.rssi, -55);
    assert_eq!(f.info.rx_seq, 7);
    assert_eq!(f.buf.len(), 40);
    assert_eq!(f.buf[39], (39 % 7) as i8);
    assert!(ring.pop().is_none());
}

#[test]
fn overflow_drops_without_panic() {
    let mut ring = CsiRing::new(2);
    for i in 0..100u32 {
        ring.push(CsiInfo { rx_seq: i as u16, ..Default::default() }, &[1, 2, 3]);
    }
    assert_eq!(ring.overflow_count(), 99);
    assert_eq!(ring.len(), 1);
}

#[test]
fn long_buf_is_truncated() {
    let mut ring = CsiRing::new(4);
    let big = vec![5i8; MAX_CSI_LEN + 100];
    ring.push(CsiInfo::default(), &big);
    let f = ring.pop().unwrap();
    assert_eq!(f.buf.len(), MAX_CSI_LEN);
}

#[test]
fn frames_leave_in_order_around_the_ring() {
    let mut ring = CsiRing::new(3);
    assert_eq!(ring.capacity(), 3);
    let mut next = 0u16;
    for i in 0..50u16 {
        let accepted = ring.push(CsiInfo { rx_seq: i, ..Default::default() }, &[i as i8]);
        assert!(accepted);
        if i % 2 == 1 {
            for _ in 0..2 {
                let f = ring.pop().unwrap();
                assert_eq!(f.info.rx_seq, next);
                assert_eq!(f.buf, vec![next as i8]);
                next += 1;
            }
            assert!(ring.is_empty());
        }
    }
    assert_eq!(ring.overflow_count(), 0);
}

#[test]
fn a_slot_forgets_its_longer_past() {
    let mut ring = CsiRing::new(2);
    ring.push(CsiInfo::default(), &[1, 2, 3, 4, 5]);
    ring.pop();
    ring.push(CsiInfo::default(), &[9]);
    ring.pop();
    ring.push(CsiInfo::default(), &[8, 7]);
    assert_eq!(ring.pop().unwrap().buf, vec![8, 7]);
}

#[test]
fn a_full_ring_refuses() {
    let mut ring = CsiRing::new(0);
    assert_eq!(ring.capacity(), 2);
    assert!(ring.push(CsiInfo::default(), &[1]));
    assert!(!ring.push(CsiInfo::default(), &[2]));
    assert_eq!(ring.pop().unwrap().buf, vec![1]);
}

#[test]
fn driver_codes_become_errors() {
    assert!(check(0).is_ok());
    let e = check(0x103).unwrap_err();
    assert_eq!(e.code(), 0x103);
    assert!(matches!(e, CsiError::EspError(0x103)));
    assert!(!e.text().is_empty());
}

#[test]
fn metadata_keeps_address_and_number() {
    let info = decode_info(&[0; 7], true, [9, 8, 7, 6, 5, 4], 513);
    assert_eq!(info.mac, [9, 8, 7, 6, 5, 4]);
    assert_eq!(info.rx_seq, 513);
    assert!(info.first_word_invalid);
    assert_eq!(info.rssi, 0);
    let info = decode_info(&[0x0000_00CE, 0, 0, 0, 0, 0, 0], false, [0; 6], 0);
    assert_eq!(info.rssi, -50);
}

#[test]
fn captured_length_needs_a_buffer() {
    assert_eq!(captured_len(false, 128), None);
    assert_eq!(captured_len(true, 128), Some(128));
    assert!(CsiConfig::default().htltf_en);
}

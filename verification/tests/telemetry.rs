use esp_radar::features::OccupancyState;
use esp_radar::web::fanout::{Outcome, Round};
use esp_radar::web::telemetry::{
    kind, link, occupancy_from_u8, occupancy_to_u8, EncodeError, SpectrogramFrame, StatusFrame,
    StatusSnapshot, StatusTexts, WaterfallFrame, TELEMETRY_MAGIC, TELEMETRY_VERSION,
};

fn texts(f: &StatusFrame) -> StatusTexts {
    let t = |b: u32, d: usize| format!("{:.*}", d, f32::from_bits(b));
    StatusTexts {
        motion_energy_rx1: t(f.motion_energy_rx1, 3),
        motion_energy_rx2: t(f.motion_energy_rx2, 3),
        motion_energy_fused: t(f.motion_energy_fused, 3),
        spectral_entropy: t(f.spectral_entropy, 3),
        pca1: t(f.pca1, 3),
        pca2: t(f.pca2, 3),
        correlation: t(f.correlation, 3),
        differential: t(f.differential, 3),
    }
}

#[test]
fn status_frame_len_and_magic() {
    let f = StatusFrame::default();
    let mut buf = [0u8; 256];
    let n = f.encode(&mut buf).unwrap();
    assert_eq!(n, StatusFrame::LEN);
    assert_eq!(&buf[0..4], &TELEMETRY_MAGIC.to_le_bytes());
    assert_eq!(buf[4], TELEMETRY_VERSION);
    assert_eq!(buf[5], kind::STATUS);
}

#[test]
fn status_frame_too_small() {
    let f = StatusFrame::default();
    let mut buf = [0u8; 10];
    let err = f.encode(&mut buf).unwrap_err();
    assert!(matches!(err, EncodeError::TooSmall { need, have: 10 } if need > 10));
}

#[test]
fn status_frame_occupancy_wire_value() {
    let f = StatusFrame { occupancy: OccupancyState::StrongMovement, ..Default::default() };
    let mut buf = [0u8; StatusFrame::LEN];
    f.encode(&mut buf).unwrap();
    assert_eq!(buf[6], 5);
    assert_eq!(occupancy_from_u8(buf[6]), OccupancyState::StrongMovement);
}

#[test]
fn waterfall_roundtrip_len() {
    let data = [0u8; 56 * 32];
    let wf = WaterfallFrame { link: link::RX1, n_sub: 56, bins: 32, scale: 4, data: &data };
    assert_eq!(wf.len(), 11 + 56 * 32);
    let mut buf = [0u8; 4096];
    let n = wf.encode(&mut buf).unwrap();
    assert_eq!(n, wf.len());
    assert_eq!(buf[5], kind::WATERFALL);
    assert_eq!(buf[6], link::RX1);
    assert_eq!(buf[7], 56);
    assert_eq!(&buf[11..n], &data[..]);
    assert!(!wf.is_empty());
}

#[test]
fn spectrogram_roundtrip_len() {
    let data = [7u8; 64 * 20];
    let sp = SpectrogramFrame { link: link::FUSED, n_freq: 64, bins: 20, scale: 2, data: &data };
    let mut buf = [0u8; 4096];
    let n = sp.encode(&mut buf).unwrap();
    assert_eq!(n, 11 + 64 * 20);
    assert_eq!(buf[5], kind::SPECTROGRAM);
    assert_eq!(buf[6], link::FUSED);
    assert_eq!(buf[11], 7);
}

#[test]
fn occupancy_mapping_roundtrip() {
    for s in [
        OccupancyState::Unknown,
        OccupancyState::Empty,
        OccupancyState::PossiblePresence,
        OccupancyState::StaticPresence,
        OccupancyState::Movement,
        OccupancyState::StrongMovement,
        OccupancyState::ComplexMovement,
    ] {
        assert_eq!(occupancy_from_u8(occupancy_to_u8(s)), s);
    }
    assert_eq!(occupancy_from_u8(0), OccupancyState::Unknown);
    assert_eq!(occupancy_from_u8(99), OccupancyState::Unknown);
}

#[test]
fn status_snapshot_json() {
    let snap = StatusSnapshot {
        frame: StatusFrame {
            occupancy: OccupancyState::Movement,
            confidence: 87,
            paired_frames_s: 196,
            motion_energy_fused: 1.234f32.to_bits(),
            ..Default::default()
        },
        channel: 6,
        tx_rate_hz: 200,
        cal_stage: 0,
        cal_active: false,
        radar_active: true,
    };
    let json = snap.to_json(&texts(&snap.frame));
    assert!(json.contains("\"radar_active\":1"));
    assert!(json.contains("\"occupancy\":\"MOVEMENT\""));
    assert!(json.contains("\"confidence\":87"));
    assert!(json.contains("\"paired_frames_s\":196"));
    assert!(json.contains("\"motion_energy_fused\":1.23"));
}

#[test]
fn a_short_buffer_says_where_it_ran_out() {
    let data = [1u8; 4];
    let wf = WaterfallFrame { link: 1, n_sub: 2, bins: 2, scale: 1, data: &data };
    for size in 0..15usize {
        let mut buf = vec![0u8; size];
        match wf.encode(&mut buf) {
            Err(EncodeError::TooSmall { need, have }) => {
                assert_eq!(have, size);
                assert!(need > size && need <= 15);
            }
            _ => panic!("size {}", size),
        }
    }
    assert_eq!(wf.encode(&mut [0u8; 15]).unwrap(), 15);
    let e = EncodeError::TooSmall { need: 11, have: 10 };
    assert!(e.text().contains("11") && e.text().contains("10"));
}

#[test]
fn a_round_keeps_the_clients_it_reached() {
    let mut r = Round::new(vec![11, 22, 33, 44]);
    let mut dropped = 0;
    while let Some(c) = r.current() {
        let outcome = match c {
            22 => Outcome::Closed,
            44 => Outcome::SendFailed,
            _ => Outcome::Sent,
        };
        if r.settle(outcome) {
            dropped += 1;
        }
    }
    assert_eq!(dropped, 2);
    let mut left = r.clients.clone();
    left.sort();
    assert_eq!(left, vec![11, 33]);
}

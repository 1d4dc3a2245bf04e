use esp_radar::dsp::transform::{select_subcarriers, valid_bins};
use esp_radar::em_sim::{
    corrupt_byte, is_snapshot, mixed_stream, monte_carlo, report_frame, snapshot_frame,
    test_report, test_snapshot, wire_bits, LinkBudget, Noise,
};
use esp_radar::integration::synth;
use esp_radar::protocol::{build, frame_type, node, Header};
use esp_radar::receiver::sim::{
    read_header, write_header, PumpStep, SimError, SimSource, SIM_FRAME_LEN, SIM_HEADER_LEN,
    SIM_MAGIC, SIM_VERSION,
};
use esp_radar::rf_sim::capture::{
    phases_in, reports_in, restamp, slope_windows, sort_phases, timing, PhaseFrame,
};
use esp_radar::rf_sim::rng::Rng;
use esp_radar::rf_sim::scenario::{
    bin_of, generate, scenario_header, subcarrier_of, write_record, DEFAULT_SEED, N_SUBC,
};

#[test]
fn deterministic_from_seed() {
    let mut a = Rng::new(42);
    let mut b = Rng::new(42);
    for _ in 0..1000 {
        assert_eq!(a.next_u64(), b.next_u64());
    }
}

#[test]
fn different_seeds_differ() {
    let mut a = Rng::new(DEFAULT_SEED);
    let mut b = Rng::new(42);
    assert_ne!(a.next_u64(), b.next_u64());
    for _ in 0..100 {
        assert!(a.next_fraction() < 1 << 53);
    }
}

#[test]
fn the_uniform_fraction_is_uniform() {
    let mut r = Rng::new(7);
    let n = 100_000;
    let mut sum = 0.0f64;
    for _ in 0..n {
        sum += r.next_fraction() as f64 / (1u64 << 53) as f64;
    }
    let mean = sum / n as f64;
    assert!((mean - 0.5).abs() < 0.01, "mean {}", mean);
}

#[test]
fn header_matches_sim_format() {
    let bssid = [36, 15, 40, 1, 2, 3];
    let h = scenario_header(6, 200, 300, -52, -96, bssid);
    let records = vec![write_record(&[(1, -1); N_SUBC]); 300];
    let bytes = generate(&h, &records);

    let magic = u32::from_le_bytes(bytes[0..4].try_into().unwrap());
    assert_eq!(magic, SIM_MAGIC);
    assert_eq!(bytes[4], SIM_VERSION);
    assert_eq!(bytes[5], 6, "channel");
    let rate = u32::from_le_bytes(bytes[8..12].try_into().unwrap());
    assert_eq!(rate, 200);
    let n = u32::from_le_bytes(bytes[12..16].try_into().unwrap());
    assert_eq!(n, 300);
    let rssi = i16::from_le_bytes(bytes[16..18].try_into().unwrap());
    assert_eq!(rssi, -52);
    assert_eq!(&bytes[20..26], &bssid);
    let flen = u16::from_le_bytes(bytes[28..30].try_into().unwrap());
    assert_eq!(flen as usize, SIM_FRAME_LEN);
    assert_eq!(bytes.len(), SIM_HEADER_LEN + 300 * SIM_FRAME_LEN);
}

#[test]
fn a_record_is_read_back_by_the_receiver() {
    let pairs: Vec<(i8, i8)> = (0..N_SUBC).map(|k| (k as i8 - 28, 100 - k as i8)).collect();
    let rec = write_record(&pairs);
    let samples: Vec<i8> = rec.iter().map(|&b| b as i8).collect();
    assert_eq!(select_subcarriers(&samples, false).unwrap(), pairs);
    assert_eq!((rec[0], rec[64], rec[65], rec[127]), (0, 0, 0, 0));
    for (k, &bin) in valid_bins().iter().enumerate() {
        assert_eq!(bin_of(subcarrier_of(k)), bin);
    }
    assert_eq!((subcarrier_of(0), subcarrier_of(27), subcarrier_of(28)), (-28, -1, 1));
}

#[test]
fn a_generated_blob_replays() {
    let h = scenario_header(6, 200, 3, -52, -96, [1, 2, 3, 4, 5, 6]);
    let records: Vec<[u8; 128]> = (0..3).map(|i| write_record(&[(i, 0); N_SUBC])).collect();
    let blob = generate(&h, &records);
    let mut head = [0u8; 32];
    head.copy_from_slice(&blob[..32]);
    let read = read_header(&head).unwrap();
    assert_eq!(read, h);

    let mut src = SimSource::new(read);
    assert_eq!((src.n_frames(), src.rate_hz()), (3, 200));
    let mut seen = Vec::new();
    let mut now = 1_000u64;
    let mut refused_once = false;
    while seen.len() < 3 {
        match src.pump(now) {
            PumpStep::Read { offset } => {
                if seen.len() == 1 && !refused_once {
                    refused_once = true;
                    src.offered(false);
                    continue;
                }
                seen.push(blob[offset as usize + 8]);
                assert_eq!(src.info(now).mac, [1, 2, 3, 4, 5, 6]);
                src.offered(true);
            }
            PumpStep::Wait => now += 1_000,
            PumpStep::Drained => panic!("too early"),
        }
    }
    assert_eq!(seen, vec![0, 1, 2]);
    assert!(now >= 11_000);
    assert!(matches!(src.pump(now + 1_000_000), PumpStep::Drained));
}

#[test]
fn bad_blobs_are_refused() {
    let h = scenario_header(6, 200, 3, -52, -96, [0; 6]);
    let good = write_header(&h);
    let mut bad = good;
    bad[0] = 0;
    assert!(matches!(read_header(&bad), Err(SimError::BadMagic(_))));
    let mut bad = good;
    bad[4] = 9;
    assert_eq!(read_header(&bad), Err(SimError::UnsupportedVersion(9)));
    let mut bad = good;
    bad[28] = 64;
    assert_eq!(read_header(&bad), Err(SimError::BadFrameLen(64)));
}

const PHASE_KIND: u8 = 0x16;

fn phase_bytes(seq: u32, t_us: u64, first: i16) -> Vec<u8> {
    let mut payload = Vec::new();
    for k in 0..56i16 {
        payload.extend_from_slice(&(first + k).to_le_bytes());
    }
    let hdr = Header::new(PHASE_KIND, node::RX1, node::TX, seq, t_us, payload.len() as u16);
    let mut buf = [0u8; 256];
    let n = build(&mut buf, &hdr, &payload);
    buf[..n].to_vec()
}

#[test]
fn a_capture_is_sorted_and_cleared_of_repeats() {
    let mut bytes = vec![1, 2, 3];
    bytes.extend_from_slice(&phase_bytes(12, 60_000, 300));
    bytes.extend_from_slice(&phase_bytes(10, 50_000, -100));
    bytes.extend_from_slice(&report_frame(&test_report()));
    bytes.extend_from_slice(&phase_bytes(12, 61_000, 999));
    bytes.extend_from_slice(&phase_bytes(11, 55_000, 200));
    let phases = phases_in(&bytes, PHASE_KIND);
    assert_eq!(phases.len(), 4);
    let sorted = sort_phases(&phases);
    let seqs: Vec<u32> = sorted.iter().map(|p| p.seq).collect();
    assert_eq!(seqs, vec![10, 11, 12]);
    assert_eq!(sorted[2].phase[0], 300);
    assert_eq!(sorted[0].phase[55], -45);
    assert_eq!(reports_in(&bytes).len(), 1);
    assert_eq!(reports_in(&bytes)[0].seq, 1234);

    let t = timing(&sorted).unwrap();
    assert_eq!((t.n, t.first_seq, t.last_seq, t.expected), (3, 10, 12, 3));
    assert_eq!(t.duration_us, 10_000);
    assert_eq!(t.intervals, vec![5_000, 5_000]);
}

fn phase(seq: u32, t_us: u64) -> PhaseFrame {
    PhaseFrame { seq, t_us, phase: [0; 56] }
}

#[test]
fn drops_show_in_the_timing() {
    let v = [phase(5, 100), phase(6, 150), phase(9, 400)];
    let t = timing(&v).unwrap();
    assert_eq!((t.n, t.expected), (3, 5));
    assert_eq!(t.intervals, vec![50]);
    let e = timing(&v[..1]).unwrap_err();
    assert_eq!(e.text(), "capture yielded only 1 CSI_PHASE frames — nothing to analyze");
}

#[test]
fn restamping_lays_frames_on_the_grid() {
    let mut v = vec![phase(5, 100), phase(6, 7_000), phase(9, 8_000)];
    restamp(&mut v, 200);
    let times: Vec<u64> = v.iter().map(|p| p.t_us).collect();
    assert_eq!(times, vec![100, 5_100, 20_100]);
}

#[test]
fn slope_windows_do_not_overlap() {
    assert_eq!(slope_windows(200), (64, vec![0, 64, 128]));
    assert_eq!(slope_windows(10), (10, vec![0]));
    assert_eq!(slope_windows(64), (64, vec![0]));
}

#[test]
fn link_budget_counts_frames() {
    let b = LinkBudget::new(460_800);
    assert_eq!((b.report_bytes, b.snapshot_bytes), (103, 383));
    assert_eq!((b.cal_cmd_bytes, b.cal_resp_bytes), (32, 41));
    assert_eq!(wire_bits(b.report_bytes), 1030);
    assert_eq!(report_frame(&test_report()).len(), 103);
    assert_eq!(snapshot_frame(&test_snapshot()).len(), 383);
}

#[test]
fn undisturbed_streams_are_recovered() {
    let (r, s) = (report_frame(&test_report()), snapshot_frame(&test_snapshot()));
    let stream = mixed_stream(50, &r, &s);
    assert_eq!(stream.len(), 10 * 383 + 40 * 103);
    let m = monte_carlo(50, &stream);
    assert_eq!((m.sent, m.recovered, m.undetected), (50, 50, 0));
    assert!(is_snapshot(0) && !is_snapshot(4) && is_snapshot(5));
}

#[test]
fn a_damaged_frame_is_lost_alone() {
    let (r, s) = (report_frame(&test_report()), snapshot_frame(&test_snapshot()));
    let mut stream = mixed_stream(50, &r, &s);
    stream[500] = corrupt_byte(stream[500], &[true, false, false, false, false, false, false, true]);
    assert_eq!(monte_carlo(50, &stream).recovered, 49);
}

#[test]
fn foreign_frames_are_counted() {
    let mut buf = [0u8; 64];
    let hdr = Header::new(frame_type::STATUS, node::RX1, node::TX, 0, 0, 3);
    let n = build(&mut buf, &hdr, &[1, 2, 3]);
    let m = monte_carlo(1, &buf[..n]);
    assert_eq!((m.recovered, m.undetected), (1, 1));
}

#[test]
fn hits_flip_their_bits() {
    let none = [false; 8];
    assert_eq!(corrupt_byte(0xA5, &none), 0xA5);
    assert_eq!(corrupt_byte(0xA5, &[true; 8]), 0x5A);
    for i in 0..8 {
        let mut hits = none;
        hits[i] = true;
        assert_eq!(corrupt_byte(0, &hits), 1 << ((8 - i) % 8));
    }
    let mut n = Noise::new();
    assert_ne!(n.next_word(), n.next_word());
}

#[test]
fn synthetic_noise_is_keyed() {
    let a = synth::noise_word(42, 7, node::RX1, 1);
    assert_eq!(a, synth::noise_word(42, 7, node::RX1, 1));
    assert_ne!(a, synth::noise_word(42, 8, node::RX1, 1));
    assert_ne!(a, synth::noise_word(42, 7, node::RX2, 1));
    assert_ne!(a, synth::noise_word(42, 7, node::RX1, 2));
    assert_ne!(a, synth::noise_word(43, 7, node::RX1, 1));
    assert_eq!(synth::noise_word(0, 0, 0, 0), 0);
}

#[test]
fn synthetic_messages_carry_fixed_figures() {
    assert_eq!(synth::synth_rssi(20), -61);
    assert_eq!((synth::subband(0), synth::subband(7)), ((0, 7), (49, 56)));
    assert_eq!(
        (synth::display_byte(-1), synth::display_byte(128), synth::display_byte(300)),
        (0, 128, 255)
    );
    let v = synth::WindowValues {
        amp_mean: 1,
        amp_std: 2,
        motion_energy: 3,
        spectral_entropy: 4,
        dominant_freq_hz: 5,
        phase_dispersion: 6,
        baseline_dev: 7,
        pca_scores: [8; 8],
    };
    let r = synth::finish_window(40, &v);
    assert_eq!((r.seq, r.n_frames, r.rssi, r.snr, r.csi_quality), (40, 20, -61, 22, 80));
    assert_eq!((r.motion_energy, r.pca_scores[7], r.dyn_range), (3, 8, 70));
    let s = synth::synth_snapshot(9, [1; 112], [2; 56], [3; 64]);
    assert_eq!((s.seq, s.n_sub, f32::from_bits(s.noise_floor)), (9, 56, -100.0));
}

#[test]
fn only_adjacent_steps_must_run_forward() {
    let v = [phase(1, 100), phase(3, 500), phase(5, 300), phase(6, 350)];
    let t = timing(&v).unwrap();
    assert_eq!((t.n, t.expected, t.duration_us), (4, 6, 250));
    assert_eq!(t.intervals, vec![50]);
}

#[test]
fn a_failed_read_ends_the_replay() {
    let header = scenario_header(6, 200, 3, -50, -96, [1, 2, 3, 4, 5, 6]);
    let mut s = SimSource::new(header);
    assert_eq!(s.pump(1_000), PumpStep::Read { offset: 32 });
    s.read_failed();
    assert_eq!(s.pump(9_000_000), PumpStep::Drained);
}

#[test]
fn a_drained_replay_needs_no_rate() {
    let mut header = scenario_header(6, 200, 3, -50, -96, [1, 2, 3, 4, 5, 6]);
    header.rate_hz = 0;
    header.n_frames = 0;
    let mut s = SimSource::new(header);
    assert_eq!(s.pump(u64::MAX), PumpStep::Drained);
    assert_eq!((s.next_idx, s.start_us), (0, None));
}

//! Synthetic CSI of a receiver: what is decided by integers.
//!
//! The channel of a frame depends on the shared sequence number and on noise
//! keyed by seed, sequence number and link, so a run is reproducible.

use vstd::prelude::*;

use crate::integration::common::REPORT_EVERY;
use crate::protocol::payloads::{CsiSnapshot, FeatureReport};
use crate::wire::F32Bits;

verus! {

/// Subbands of the subcarriers.
pub const N_SUBBANDS: usize = 8;

/// SNR that synthetic reports and snapshots carry, in dB.
pub const SYNTH_SNR: i8 = 22;

/// CSI quality that synthetic reports and snapshots carry.
pub const SYNTH_QUALITY: u8 = 80;

/// Transmit power, in dBm, of the channel that a report or snapshot shows.
pub const SHOWN_POWER_DB: u8 = 20;

/// The noise floor of -100 dBm, as its bit pattern.
pub const NOISE_FLOOR_BITS: F32Bits = 0xC2C8_0000;

/// The key of a noise value before it is mixed.
pub open spec fn noise_key(seed: u64, seq: u32, link: u8, salt: u64) -> u64 {
    seed.wrapping_mul(0x9E37_79B9_7F4A_7C15).wrapping_add(
        (seq * 0x1000_0001) as u64,
    ).wrapping_add((link * 0x3141_5927) as u64).wrapping_add((salt * 0x2654_4353) as u64)
}

/// Mixes a key.
pub open spec fn mixed(key: u64) -> u64 {
    let a = key ^ (key >> 12u64);
    let b = a ^ (a << 25u64);
    b ^ (b >> 27u64)
}

/// The noise word for (seed, seq, link, salt): the numerator of a fraction of
/// the largest `u32`.
pub fn noise_word(seed: u64, seq: u32, link: u8, salt: u64) -> (w: u32)
    requires
        salt * 0x2654_4353 <= u64::MAX,
    ensures
        w as int == mixed(noise_key(seed, seq, link, salt)) as int % 0x1_0000_0000,
{
    let key: u64 = seed.wrapping_mul(0x9E37_79B9_7F4A_7C15).wrapping_add(
        seq as u64 * 0x1000_0001,
    ).wrapping_add(link as u64 * 0x3141_5927).wrapping_add(salt * 0x2654_4353);
    let a: u64 = key ^ (key >> 12u64);
    let b: u64 = a ^ (a << 25u64);
    let x: u64 = b ^ (b >> 27u64);
    (x % 0x1_0000_0000) as u32
}

/// Received power of a frame that was sent with `tx_power_db`.
pub fn synth_rssi(tx_power_db: u8) -> (rssi: i16)
    ensures
        rssi == -55 - tx_power_db / 3,
{
    -55 - (tx_power_db / 3) as i16
}

/// Subcarriers of a subband: from the first up to, not with, the second.
pub fn subband(s: usize) -> (r: (usize, usize))
    requires
        s < N_SUBBANDS,
    ensures
        r.0 == 7 * s,
        r.1 == 7 * s + 7,
{
    (7 * s, 7 * s + 7)
}

/// The subbands divide the 56 subcarriers among them: each subcarrier is in
/// exactly one.
pub proof fn subbands_cover_the_channel(k: int, s: int)
    requires
        0 <= k < 56,
        0 <= s < 8,
    ensures
        (7 * s <= k < 7 * s + 7) <==> s == k / 7,
        0 <= k / 7 < 8,
{
}

/// A value of the display range.
pub fn display_byte(v: i32) -> (b: u8)
    ensures
        b == (if v < 0 {
            0
        } else if v > 255 {
            255
        } else {
            v as int
        }),
{
    if v < 0 {
        0
    } else if v > 255 {
        255
    } else {
        v as u8
    }
}

/// The measured values of a window.
#[derive(Clone, Copy, Debug)]
pub struct WindowValues {
    pub amp_mean: F32Bits,
    pub amp_std: F32Bits,
    pub motion_energy: F32Bits,
    pub spectral_entropy: F32Bits,
    pub dominant_freq_hz: F32Bits,
    pub phase_dispersion: F32Bits,
    pub baseline_dev: F32Bits,
    pub pca_scores: [F32Bits; 8],
}

/// The report of a full window that ends with the frame `seq`.
pub open spec fn window_report(seq: u32, rssi: i16, v: WindowValues) -> FeatureReport {
    FeatureReport {
        seq,
        n_frames: REPORT_EVERY,
        n_missing: 0,
        rssi,
        snr: SYNTH_SNR,
        csi_quality: SYNTH_QUALITY,
        sat_score: 0,
        dyn_range: 70,
        flags: 0,
        amp_mean: v.amp_mean,
        amp_std: v.amp_std,
        motion_energy: v.motion_energy,
        spectral_entropy: v.spectral_entropy,
        dominant_freq_hz: v.dominant_freq_hz,
        phase_dispersion: v.phase_dispersion,
        baseline_dev: v.baseline_dev,
        pca_scores: v.pca_scores,
    }
}

/// The real-valued features of a synthetic report are those of its window,
/// each under its own name.
pub proof fn synthetic_reports_keep_their_names(seq: u32, rssi: i16, v: WindowValues)
    ensures
        ({
            let r = window_report(seq, rssi, v);
            &&& r.seq == seq && r.rssi == rssi && r.n_missing == 0
            &&& r.amp_mean == v.amp_mean && r.amp_std == v.amp_std
            &&& r.motion_energy == v.motion_energy && r.spectral_entropy == v.spectral_entropy
            &&& r.dominant_freq_hz == v.dominant_freq_hz && r.phase_dispersion
                == v.phase_dispersion
            &&& r.baseline_dev == v.baseline_dev && r.pca_scores == v.pca_scores
        }),
{
}

/// Builds the report of a full window that ends with the frame `seq`.
pub fn finish_window(seq: u32, v: &WindowValues) -> (r: FeatureReport)
    ensures
        r == window_report(seq, -61i16, *v),
{
    FeatureReport {
        seq,
        n_frames: REPORT_EVERY,
        n_missing: 0,
        rssi: synth_rssi(SHOWN_POWER_DB),
        snr: SYNTH_SNR,
        csi_quality: SYNTH_QUALITY,
        sat_score: 0,
        dyn_range: 70,
        flags: 0,
        amp_mean: v.amp_mean,
        amp_std: v.amp_std,
        motion_energy: v.motion_energy,
        spectral_entropy: v.spectral_entropy,
        dominant_freq_hz: v.dominant_freq_hz,
        phase_dispersion: v.phase_dispersion,
        baseline_dev: v.baseline_dev,
        pca_scores: v.pca_scores,
    }
}

/// Builds the snapshot of the frame `seq`.
pub fn synth_snapshot(seq: u32, iq: [i16; 112], amp_norm: [u8; 56], spec_bins: [u8; 64]) -> (s:
    CsiSnapshot)
    ensures
        s == (CsiSnapshot {
            seq,
            rssi: -61i16,
            snr: SYNTH_SNR,
            csi_quality: SYNTH_QUALITY,
            noise_floor: NOISE_FLOOR_BITS,
            flags: 0,
            n_sub: 56,
            reserved: 0,
            iq,
            amp_norm,
            spec: spec_bins,
        }),
{
    CsiSnapshot {
        seq,
        rssi: synth_rssi(SHOWN_POWER_DB),
        snr: SYNTH_SNR,
        csi_quality: SYNTH_QUALITY,
        noise_floor: NOISE_FLOOR_BITS,
        flags: 0,
        n_sub: 56,
        reserved: 0,
        iq,
        amp_norm,
        spec: spec_bins,
    }
}

} // verus!

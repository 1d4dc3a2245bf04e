//! Per-frame link metrics.

use vstd::prelude::*;

verus! {

/// Samples of a buffer that are at the limit of the converter.
pub open spec fn clipped(buf: Seq<i8>) -> nat
    decreases buf.len(),
{
    if buf.len() == 0 {
        0
    } else {
        clipped(buf.drop_last()) + if buf.last() >= 120 || buf.last() <= -120 {
            1nat
        } else {
            0
        }
    }
}

/// The percentage of clipped samples, cut to an integer; 0 without samples.
pub open spec fn saturation(buf: Seq<i8>) -> int {
    if buf.len() == 0 {
        0
    } else {
        (clipped(buf) as int) * 100 / (buf.len() as int)
    }
}

/// Clipped samples of two pieces add up.
pub proof fn clipped_samples_add_up(a: Seq<i8>, b: Seq<i8>)
    ensures
        clipped(a + b) == clipped(a) + clipped(b),
    decreases b.len(),
{
    if b.len() == 0 {
        assert(a + b =~= a);
    } else {
        assert((a + b).drop_last() =~= a + b.drop_last());
        clipped_samples_add_up(a, b.drop_last());
    }
}

/// A single sample is clipped from 120 on, whatever its sign.
pub proof fn samples_clip_at_both_ends(v: i8)
    ensures
        clipped(seq![v]) == if -120 < v < 120 {
            0nat
        } else {
            1
        },
{
    assert(seq![v].drop_last() =~= Seq::empty());
    reveal_with_fuel(clipped, 2);
}

/// The score is the share of clipped samples in percent, cut by less than one:
/// 0 where none is, 100 exactly where all are.
pub proof fn saturation_is_a_percentage(buf: Seq<i8>)
    requires
        buf.len() > 0,
    ensures
        clipped(buf) <= buf.len(),
        saturation(buf) * buf.len() <= 100 * clipped(buf) < (saturation(buf) + 1) * buf.len(),
        clipped(buf) == 0 ==> saturation(buf) == 0,
        (clipped(buf) == buf.len()) == (saturation(buf) == 100),
{
    clipped_is_bounded(buf);
    let (c, n, s) = (clipped(buf) as int, buf.len() as int, saturation(buf));
    vstd::arithmetic::div_mod::lemma_fundamental_div_mod(c * 100, n);
    vstd::arithmetic::div_mod::lemma_mod_bound(c * 100, n);
    assert(n * s == s * n) by (nonlinear_arith);
    assert((s + 1) * n == s * n + n) by (nonlinear_arith);
    assert(s == 100 ==> c == n && c * 100 == 100 * n) by (nonlinear_arith)
        requires
            s * n <= c * 100,
            c <= n,
    ;
    assert(c == n ==> s == 100) by (nonlinear_arith)
        requires
            s * n <= c * 100 < s * n + n,
            n > 0,
    ;
    assert(c == 0 ==> s == 0) by (nonlinear_arith)
        requires
            s * n <= c * 100 < s * n + n,
            n > 0,
    ;
}

proof fn clipped_is_bounded(buf: Seq<i8>)
    ensures
        clipped(buf) <= buf.len(),
    decreases buf.len(),
{
    if buf.len() > 0 {
        clipped_is_bounded(buf.drop_last());
    }
}

/// 0..=100: how close a raw buffer is to clipping.
pub fn sat_score(buf: &[i8]) -> (s: u8)
    ensures
        s == saturation(buf@),
        s <= 100,
{
    let n: usize = buf.len();
    if n == 0 {
        return 0;
    }
    let mut clip: usize = 0;
    let mut i: usize = 0;
    while i < n
        invariant
            n == buf@.len(),
            i <= n,
            clip <= i,
            clip == clipped(buf@.subrange(0, i as int)),
        decreases n - i,
    {
        let b: i8 = buf[i];
        if b >= 120 || b <= -120 {
            clip += 1;
        }
        i += 1;
        assert(buf@.subrange(0, i as int).drop_last() =~= buf@.subrange(0, i - 1));
    }
    assert(buf@.subrange(0, n as int) =~= buf@);
    let q: u128 = clip as u128 * 100 / n as u128;
    proof {
        let (c, m, r) = (clip as int, n as int, q as int);
        assert(0 <= r <= 100) by (nonlinear_arith)
            requires
                r == c * 100 / m,
                0 <= c <= m,
                m > 0,
        ;
    }
    q as u8
}

/// Signal above noise, in dB.
pub fn snr_db(rssi: i16, noise_floor: i16) -> (snr: i32)
    ensures
        snr == rssi - noise_floor,
{
    rssi as i32 - noise_floor as i32
}

/// The link quality of a signal-to-noise ratio: -40 dB is 0, 60 dB is 100,
/// linear between.
pub open spec fn quality_of(snr: int) -> u8 {
    if snr <= -40 {
        0
    } else if snr >= 60 {
        100
    } else {
        (snr + 40) as u8
    }
}

/// 0..=100 link quality.
pub fn csi_quality(snr: i32) -> (q: u8)
    ensures
        q == quality_of(snr as int),
{
    if snr <= -40 {
        0
    } else if snr >= 60 {
        100
    } else {
        (snr + 40) as u8
    }
}

/// A better signal never has a lower quality.
pub proof fn quality_is_monotonic(a: int, b: int)
    requires
        a <= b,
    ensures
        quality_of(a) <= quality_of(b) <= 100,
{
}

/// The quality rises by one point per decibel, from 0 at -40 dB to 100 at
/// 60 dB.
pub proof fn quality_rises_with_the_signal(snr: int)
    ensures
        -40 <= snr < 60 ==> quality_of(snr + 1) == quality_of(snr) + 1,
        snr <= -40 ==> quality_of(snr) == 0,
        snr >= 60 ==> quality_of(snr) == 100,
{
}

/// What one decoded frame contributes to the statistics.
#[derive(Clone, Copy, Debug, PartialEq, Eq, Structural)]
pub struct FrameStats {
    /// The frame held all subcarriers.
    pub valid: bool,
    pub rssi: i16,
    pub noise_floor: i16,
    /// 0..=100 saturation of the raw buffer.
    pub sat: u8,
    /// 0..=100 dynamic range of the amplitudes.
    pub dyn_range: u8,
}

impl FrameStats {
    /// Signal above noise, in dB.
    pub open spec fn snr(self) -> int {
        self.rssi - self.noise_floor
    }
}

} // verus!

//! Subcarrier selection from raw CSI buffers.
//!
//! The raw buffer holds interleaved I/Q pairs, one per FFT bin, in the order
//! of subcarriers -32..=31, so that bin 32 is DC. The 56 occupied subcarriers
//! (-28..=-1 and 1..=28) are kept; DC and the guard bands are dropped.

use vstd::prelude::*;

use crate::wire::F32Bits;

verus! {

/// The FFT bin of the `k`-th kept subcarrier.
pub open spec fn bin_at(k: int) -> int {
    if k < 28 {
        k + 4
    } else {
        k + 5
    }
}

/// The `k`-th kept subcarrier, counted from the centre frequency.
pub open spec fn subcarrier_at(k: int) -> int {
    bin_at(k) - 32
}

/// FFT bins of the kept subcarriers, in increasing order.
pub fn valid_bins() -> (out: [usize; 56])
    ensures
        forall|k: int| 0 <= k < 56 ==> #[trigger] out@[k] == bin_at(k),
{
    let mut out = [0usize; 56];
    let mut k: usize = 0;
    while k < 28
        invariant
            k <= 28,
            forall|i: int| 0 <= i < k ==> #[trigger] out@[i] == bin_at(i),
        decreases 28 - k,
    {
        out[k] = k + 4;
        k += 1;
    }
    while k < 56
        invariant
            28 <= k <= 56,
            forall|i: int| 0 <= i < k ==> #[trigger] out@[i] == bin_at(i),
        decreases 56 - k,
    {
        out[k] = k + 5;
        k += 1;
    }
    out
}

/// The kept bins are the occupied ones: they increase, they leave out DC and
/// the guard bands, and every bin that is neither is kept.
pub proof fn kept_bins_are_the_occupied_ones(j: int, k: int, bin: int)
    requires
        0 <= j < k < 56,
    ensures
        bin_at(j) < bin_at(k),
        4 <= bin_at(k) <= 60,
        bin_at(k) != 32,
        -28 <= subcarrier_at(k) <= 28,
        4 <= bin <= 60 && bin != 32 ==> exists|i: int|
            0 <= i < 56 && #[trigger] bin_at(i) == bin,
{
    if 4 <= bin < 32 {
        assert(bin_at(bin - 4) == bin);
    } else if 32 < bin <= 60 {
        assert(bin_at(bin - 5) == bin);
    }
}

/// Samples a buffer must hold: two per bin up to the last kept one.
pub const MIN_SAMPLES: usize = 122;

/// Samples skipped when the first hardware word is invalid.
pub const INVALID_SAMPLES: usize = 4;

/// How many leading samples are skipped.
pub open spec fn skipped(first_word_invalid: bool) -> int {
    if first_word_invalid {
        INVALID_SAMPLES as int
    } else {
        0
    }
}

/// A buffer needs all samples up to the last kept bin; with an invalid first
/// word everything moves by its four samples.
pub proof fn kept_samples_are_in_the_buffer(k: int, first_word_invalid: bool)
    requires
        0 <= k < 56,
    ensures
        skipped(false) == 0,
        skipped(true) == 4,
        skipped(first_word_invalid) + 2 * bin_at(k) + 1 < MIN_SAMPLES + skipped(
            first_word_invalid,
        ),
        2 * bin_at(55) + 2 == MIN_SAMPLES,
{
}

/// The I and Q samples of the kept subcarriers, in subcarrier order. `None`
/// when the buffer is too short to hold them all.
pub fn select_subcarriers(buf: &[i8], first_word_invalid: bool) -> (r: Option<Vec<(i8, i8)>>)
    ensures
        match r {
            Some(pairs) => {
                &&& buf@.len() >= MIN_SAMPLES + skipped(first_word_invalid)
                &&& pairs@ == Seq::new(
                    56,
                    |k: int|
                        (
                            buf@[skipped(first_word_invalid) + 2 * bin_at(k)],
                            buf@[skipped(first_word_invalid) + 2 * bin_at(k) + 1],
                        ),
                )
            },
            None => buf@.len() < MIN_SAMPLES + skipped(first_word_invalid),
        },
{
    let offset: usize = if first_word_invalid {
        INVALID_SAMPLES
    } else {
        0
    };
    if buf.len() < MIN_SAMPLES + offset {
        return None;
    }
    let bins = valid_bins();
    let mut pairs: Vec<(i8, i8)> = Vec::new();
    let mut k: usize = 0;
    while k < 56
        invariant
            k <= 56,
            offset == skipped(first_word_invalid),
            buf@.len() >= MIN_SAMPLES + offset,
            forall|i: int| 0 <= i < 56 ==> #[trigger] bins@[i] == bin_at(i),
            pairs@.len() == k,
            forall|i: int|
                0 <= i < k ==> #[trigger] pairs@[i] == (
                    buf@[offset + 2 * bin_at(i)],
                    buf@[offset + 2 * bin_at(i) + 1],
                ),
        decreases 56 - k,
    {
        let base: usize = offset + 2 * bins[k];
        pairs.push((buf[base], buf[base + 1]));
        k += 1;
    }
    assert(pairs@ =~= Seq::new(
        56,
        |i: int| (buf@[offset + 2 * bin_at(i)], buf@[offset + 2 * bin_at(i) + 1]),
    ));
    Some(pairs)
}

/// Per-subcarrier reference for z-scores: amplitudes have `base` subtracted
/// and are divided by `scale`.
#[derive(Clone, Copy, Debug)]
pub struct Normalizer {
    pub base: [F32Bits; 56],
    pub scale: [F32Bits; 56],
}

/// 1.0.
pub const ONE: F32Bits = 0x3F80_0000;

impl Default for Normalizer {
    /// Leaves amplitudes as they are.
    fn default() -> (n: Self)
        ensures
            n.base@ == Seq::new(56, |k: int| 0u32),
            n.scale@ == Seq::new(56, |k: int| ONE),
    {
        let n = Normalizer { base: [0u32; 56], scale: [ONE; 56] };
        assert(n.base@ =~= Seq::new(56, |k: int| 0u32));
        assert(n.scale@ =~= Seq::new(56, |k: int| ONE));
        n
    }
}

/// The subcarriers averaged into the `i`-th smoothed one: those at most
/// `radius` away, first and last.
pub fn smoothing_span(i: usize, radius: usize) -> (r: (usize, usize))
    requires
        i < 56,
    ensures
        r.0 == (if radius >= i {
            0
        } else {
            i - radius
        }),
        r.1 == (if i + radius >= 55 {
            55
        } else {
            i + radius
        }),
{
    let lo: usize = if radius >= i {
        0
    } else {
        i - radius
    };
    let hi: usize = if radius >= 55 - i {
        55
    } else {
        i + radius
    };
    (lo, hi)
}

} // verus!

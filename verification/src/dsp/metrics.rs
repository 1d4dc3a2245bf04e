//! Peak of a power spectrum.

use vstd::prelude::*;

use crate::single::{exceeds, greater, is_nan};
use crate::wire::F32Bits;

verus! {

/// `best` is the bin of a spectrum's dominant peak: the first of the largest
/// bins, DC left out. A spectrum whose first bin after DC is no number has its
/// peak there, and one without such a bin has it at 1 too.
pub open spec fn is_peak(power: Seq<F32Bits>, best: int) -> bool {
    if power.len() < 2 || is_nan(power[1]) {
        best == 1
    } else {
        &&& 1 <= best < power.len()
        &&& !is_nan(power[best])
        &&& forall|i: int| 1 <= i < power.len() ==> !greater(#[trigger] power[i], power[best])
        &&& forall|i: int|
            1 <= i < best ==> greater(power[best], #[trigger] power[i]) || is_nan(power[i])
    }
}

/// A spectrum has one dominant peak.
pub proof fn peak_is_unique(power: Seq<F32Bits>, a: int, b: int)
    requires
        is_peak(power, a),
        is_peak(power, b),
    ensures
        a == b,
{
    if power.len() >= 2 && !is_nan(power[1]) {
        if a < b {
            assert(greater(power[b], power[a]));
        } else if b < a {
            assert(greater(power[a], power[b]));
        }
    }
}

/// The peak is never DC: it lies at a bin of positive frequency, which no
/// other such bin exceeds, and of equals it is the first.
pub proof fn peak_is_the_first_of_the_largest(power: Seq<F32Bits>, best: int, i: int)
    requires
        power.len() >= 2,
        forall|k: int| 0 <= k < power.len() ==> !is_nan(#[trigger] power[k]),
        is_peak(power, best),
        1 <= i < power.len(),
    ensures
        1 <= best < power.len(),
        !greater(power[i], power[best]),
        i < best ==> greater(power[best], power[i]),
{
}

/// Bin of the dominant peak; `None` for an empty spectrum.
pub fn dominant_bin(power: &[F32Bits]) -> (r: Option<usize>)
    ensures
        match r {
            Some(best) => power@.len() > 0 && is_peak(power@, best as int),
            None => power@.len() == 0,
        },
{
    let n: usize = power.len();
    if n == 0 {
        return None;
    }
    if n == 1 {
        return Some(1);
    }
    let mut best: usize = 1;
    let mut i: usize = 1;
    while i < n
        invariant
            n == power@.len(),
            1 <= best,
            best <= i <= n,
            best < n,
            is_nan(power@[1]) ==> best == 1,
            !is_nan(power@[1]) ==> !is_nan(power@[best as int]),
            forall|k: int|
                1 <= k < i ==> !greater(#[trigger] power@[k], power@[best as int]),
            forall|k: int|
                1 <= k < best ==> greater(power@[best as int], #[trigger] power@[k]) || is_nan(
                    power@[k],
                ),
        decreases n - i,
    {
        if exceeds(power[i], power[best]) {
            best = i;
        }
        i += 1;
    }
    Some(best)
}

} // verus!

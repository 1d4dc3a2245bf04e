//! Median of five, the outlier remover for per-subcarrier series.

use vstd::prelude::*;

use crate::single::{exceeds, greater, is_nan};
use crate::wire::F32Bits;

verus! {

/// `v` with its element at `j` sunk below those to its left that exceed it.
pub open spec fn sunk(v: Seq<F32Bits>, j: int) -> Seq<F32Bits>
    decreases j,
{
    if j <= 0 || !greater(v[j - 1], v[j]) {
        v
    } else {
        sunk(v.update(j, v[j - 1]).update(j - 1, v[j]), j - 1)
    }
}

/// `v` with its first `n` elements sorted by insertion.
pub open spec fn sorted_to(v: Seq<F32Bits>, n: int) -> Seq<F32Bits>
    decreases n,
{
    if n <= 1 {
        v
    } else {
        sunk(sorted_to(v, n - 1), n - 1)
    }
}

/// The median of five: the middle one after sorting.
pub open spec fn median(x: Seq<F32Bits>) -> F32Bits {
    sorted_to(x, 5)[2]
}

spec fn ordered(v: Seq<F32Bits>, n: int) -> bool {
    forall|i: int, j: int| 0 <= i < j < n ==> !greater(#[trigger] v[i], #[trigger] v[j])
}

spec fn all_numbers(v: Seq<F32Bits>) -> bool {
    forall|i: int| 0 <= i < v.len() ==> !is_nan(#[trigger] v[i])
}

spec fn below(v: Seq<F32Bits>, j: int, bound: F32Bits) -> bool {
    forall|a: int| 0 <= a <= j ==> !greater(#[trigger] v[a], bound)
}

proof fn sunk_is_a_rearrangement(v: Seq<F32Bits>, j: int)
    requires
        0 <= j < v.len(),
    ensures
        sunk(v, j).len() == v.len(),
        sunk(v, j).to_multiset() == v.to_multiset(),
        forall|k: int| j < k < v.len() ==> #[trigger] sunk(v, j)[k] == v[k],
    decreases j,
{
    if j > 0 && greater(v[j - 1], v[j]) {
        let w = v.update(j, v[j - 1]).update(j - 1, v[j]);
        vstd::seq_lib::to_multiset_update(v, j, v[j - 1]);
        vstd::seq_lib::to_multiset_update(v.update(j, v[j - 1]), j - 1, v[j]);
        assert(v.to_multiset().count(v[j]) > 0) by {
            broadcast use vstd::seq_lib::group_to_multiset_ensures;

            assert(v.contains(v[j]));
        }
        assert(w.to_multiset() =~= v.to_multiset());
        sunk_is_a_rearrangement(w, j - 1);
    }
}

proof fn sunk_sorts(v: Seq<F32Bits>, j: int)
    requires
        0 <= j < v.len(),
        all_numbers(v),
        forall|a: int, b: int|
            0 <= a < b <= j && b != j ==> !greater(#[trigger] v[a], #[trigger] v[b]),
    ensures
        ordered(sunk(v, j), j + 1),
        all_numbers(sunk(v, j)),
        forall|b: F32Bits| below(v, j, b) ==> #[trigger] below(sunk(v, j), j, b),
    decreases j,
{
    if j > 0 && greater(v[j - 1], v[j]) {
        let w = v.update(j, v[j - 1]).update(j - 1, v[j]);
        assert(all_numbers(w));
        sunk_sorts(w, j - 1);
        sunk_is_a_rearrangement(w, j - 1);
        let s = sunk(w, j - 1);
        assert(s[j] == v[j - 1]);
        assert(below(w, j - 1, v[j - 1])) by {
            assert forall|a: int| 0 <= a <= j - 1 implies !greater(#[trigger] w[a], v[j - 1]) by {
                if a < j - 1 {
                    assert(w[a] == v[a]);
                    assert(!greater(v[a], v[j - 1]));
                } else {
                    assert(w[a] == v[j]);
                }
            }
        }
        assert(below(s, j - 1, v[j - 1]));
        assert(ordered(s, j + 1)) by {
            assert forall|a: int, b: int| 0 <= a < b < j + 1 implies !greater(
                #[trigger] s[a],
                #[trigger] s[b],
            ) by {
                if b == j {
                    assert(!greater(s[a], v[j - 1]));
                }
            }
        }
        assert forall|b: F32Bits| below(v, j, b) implies #[trigger] below(sunk(v, j), j, b) by {
            assert(below(w, j - 1, b)) by {
                assert(!greater(v[j], b) && !greater(v[j - 1], b));
                assert forall|a: int| 0 <= a <= j - 1 implies !greater(#[trigger] w[a], b) by {
                    if a < j - 1 {
                        assert(!greater(v[a], b));
                    }
                }
            }
            assert(below(s, j - 1, b));
            assert(!greater(v[j - 1], b));
        }
    } else {
        assert(ordered(v, j + 1)) by {
            assert forall|a: int, b: int| 0 <= a < b < j + 1 implies !greater(
                #[trigger] v[a],
                #[trigger] v[b],
            ) by {
                if b == j && a < j - 1 {
                    assert(!greater(v[a], v[j - 1]));
                    assert(!greater(v[j - 1], v[j]));
                }
            }
        }
    }
}

proof fn sorting(v: Seq<F32Bits>, n: int)
    requires
        1 <= n <= v.len(),
    ensures
        sorted_to(v, n).len() == v.len(),
        sorted_to(v, n).to_multiset() == v.to_multiset(),
        all_numbers(v) ==> ordered(sorted_to(v, n), n) && all_numbers(sorted_to(v, n)),
    decreases n,
{
    if n > 1 {
        sorting(v, n - 1);
        let s = sorted_to(v, n - 1);
        sunk_is_a_rearrangement(s, n - 1);
        if all_numbers(v) {
            sunk_sorts(s, n - 1);
        }
    }
}

/// The median is one of the five samples; among numbers, two of the sorted
/// samples come before it and do not exceed it, and two come after it and are
/// not exceeded by it.
pub proof fn median_is_in_the_middle(x: Seq<F32Bits>)
    requires
        x.len() == 5,
    ensures
        x.contains(median(x)),
        sorted_to(x, 5).len() == 5,
        sorted_to(x, 5).to_multiset() == x.to_multiset(),
        (forall|i: int| 0 <= i < 5 ==> !is_nan(#[trigger] x[i])) ==> !greater(
            sorted_to(x, 5)[0],
            median(x),
        ) && !greater(sorted_to(x, 5)[1], median(x)) && !greater(
            median(x),
            sorted_to(x, 5)[3],
        ) && !greater(median(x), sorted_to(x, 5)[4]),
{
    broadcast use vstd::seq_lib::group_to_multiset_ensures;

    sorting(x, 5);
    let s = sorted_to(x, 5);
    assert(s.contains(s[2]));
    assert(s.to_multiset().count(s[2]) > 0);
    assert(x.to_multiset().count(s[2]) > 0);
}

/// `s` is an arrangement of the samples in order, none exceeding a later one.
pub open spec fn arranged(x: Seq<F32Bits>, s: Seq<F32Bits>) -> bool {
    &&& s.len() == x.len()
    &&& s.to_multiset() == x.to_multiset()
    &&& forall|i: int, j: int| 0 <= i < j < s.len() ==> !greater(#[trigger] s[i], #[trigger] s[j])
}

/// Among numbers, the median is the third of the samples put in order: two
/// come before it and two after.
pub proof fn median_is_the_third_in_order(x: Seq<F32Bits>)
    requires
        x.len() == 5,
        forall|i: int| 0 <= i < 5 ==> !is_nan(#[trigger] x[i]),
    ensures
        exists|s: Seq<F32Bits>| #[trigger] arranged(x, s) && s[2] == median(x),
{
    sorting(x, 5);
    assert(arranged(x, sorted_to(x, 5)));
}

/// Median of five samples.
pub fn median5(x: [F32Bits; 5]) -> (m: F32Bits)
    ensures
        m == median(x@),
{
    let mut v = x;
    let mut i: usize = 1;
    while i < 5
        invariant
            1 <= i <= 5,
            v@ == sorted_to(x@, i as int),
        decreases 5 - i,
    {
        let mut j: usize = i;
        let ghost target = sunk(v@, i as int);
        while j > 0 && exceeds(v[j - 1], v[j])
            invariant
                j <= i < 5,
                sunk(v@, j as int) == target,
            decreases j,
        {
            let a: F32Bits = v[j - 1];
            let b: F32Bits = v[j];
            let ghost w = v@;
            v[j] = a;
            v[j - 1] = b;
            assert(v@ =~= w.update(j as int, w[j - 1]).update(j - 1, w[j as int]));
            j -= 1;
        }
        i += 1;
    }
    v[2]
}

} // verus!

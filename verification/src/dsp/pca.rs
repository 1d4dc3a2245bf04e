//! The rolling window of observations behind the principal components.

use vstd::prelude::*;

use crate::features::slid;
use crate::wire::F32Bits;

verus! {

/// Observations needed before components are fitted.
pub const WARM: usize = 4;

/// The last `window` observations of `k` values each, in a ring.
pub struct Observations {
    k: usize,
    window: usize,
    rows: Vec<Vec<F32Bits>>,
    head: usize,
    count: usize,
}

impl Observations {
    spec fn row_place(self, i: int) -> int {
        if self.head - self.count + i >= 0 {
            self.head - self.count + i
        } else {
            self.head - self.count + i + self.window
        }
    }

    pub closed spec fn wf(self) -> bool {
        &&& 2 <= self.window == self.rows@.len()
        &&& self.head < self.window
        &&& self.count <= self.window
        &&& self.count < self.window ==> self.head == self.count
        &&& forall|i: int| 0 <= i < self.rows@.len() ==> (#[trigger] self.rows@[i])@.len() == self.k
    }

    /// Values per observation.
    pub closed spec fn width(self) -> nat {
        self.k as nat
    }

    pub closed spec fn capacity(self) -> nat {
        self.window as nat
    }
}

impl View for Observations {
    type V = Seq<Seq<F32Bits>>;

    /// The observations held, oldest first.
    closed spec fn view(&self) -> Seq<Seq<F32Bits>> {
        Seq::new(self.count as nat, |i: int| self.rows@[self.row_place(i)]@)
    }
}

impl Observations {
    /// An empty window of at least two observations.
    pub fn new(k: usize, window: usize) -> (o: Self)
        ensures
            o.wf(),
            o@ == Seq::<Seq<F32Bits>>::empty(),
            o.width() == k,
            o.capacity() == (if window < 2 {
                2
            } else {
                window as nat
            }),
    {
        let window: usize = if window < 2 {
            2
        } else {
            window
        };
        let mut rows: Vec<Vec<F32Bits>> = Vec::new();
        let mut i: usize = 0;
        while i < window
            invariant
                i <= window,
                rows@.len() == i,
                forall|j: int| 0 <= j < rows@.len() ==> (#[trigger] rows@[j])@.len() == k,
            decreases window - i,
        {
            rows.push(vec![0u32; k]);
            i += 1;
        }
        let o = Observations { k, window, rows, head: 0, count: 0 };
        assert(o@ =~= Seq::<Seq<F32Bits>>::empty());
        o
    }

    /// Adds an observation; the oldest gives way. Says whether enough are
    /// held to fit components.
    pub fn update(&mut self, x: Vec<F32Bits>) -> (warm: bool)
        requires
            old(self).wf(),
            x@.len() == old(self).width(),
        ensures
            final(self).wf(),
            final(self)@ == slid(old(self)@, old(self).capacity(), x@),
            final(self).width() == old(self).width(),
            final(self).capacity() == old(self).capacity(),
            warm == (final(self)@.len() >= WARM),
            warm == (final(self)@.len() >= 4),
            final(self)@.last() == x@,
    {
        let ghost xs = x@;
        let head: usize = self.head;
        self.rows[head] = x;
        self.head = if head + 1 == self.window {
            0
        } else {
            head + 1
        };
        if self.count < self.window {
            self.count = self.count + 1;
        }
        assert(self@ =~= slid(old(self)@, old(self).capacity(), xs));
        self.count >= WARM
    }

    /// Number of observations held.
    pub fn count(&self) -> (n: usize)
        requires
            self.wf(),
        ensures
            n == self@.len(),
    {
        self.count
    }

    /// The `i`-th oldest observation.
    pub fn row(&self, i: usize) -> (r: &Vec<F32Bits>)
        requires
            self.wf(),
            i < self@.len(),
        ensures
            r@ == self@[i as int],
    {
        let skip: usize = self.count - i;
        let place: usize = if self.head >= skip {
            self.head - skip
        } else {
            self.window - (skip - self.head)
        };
        &self.rows[place]
    }

    /// Forgets all observations.
    pub fn reset(&mut self)
        requires
            old(self).wf(),
        ensures
            final(self).wf(),
            final(self)@ == Seq::<Seq<F32Bits>>::empty(),
            final(self).width() == old(self).width(),
            final(self).capacity() == old(self).capacity(),
    {
        self.head = 0;
        self.count = 0;
        assert(self@ =~= Seq::<Seq<F32Bits>>::empty());
    }
}

} // verus!

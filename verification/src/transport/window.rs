//! Counting events in a sliding time window.

use std::collections::VecDeque;

use vstd::prelude::*;

verus! {

/// The start of the window of `window_us` that ends at `now_us`; never before
/// time zero.
pub open spec fn window_start(now_us: u64, window_us: u64) -> int {
    if now_us >= window_us {
        now_us - window_us
    } else {
        0
    }
}

/// `s` without the leading samples older than `cutoff`.
pub open spec fn drop_stale(s: Seq<(u64, u64)>, cutoff: int) -> Seq<(u64, u64)>
    decreases s.len(),
{
    if s.len() > 0 && s[0].0 < cutoff {
        drop_stale(s.subrange(1, s.len() as int), cutoff)
    } else {
        s
    }
}

/// The number of samples not older than `cutoff`.
pub open spec fn count_fresh(s: Seq<(u64, u64)>, cutoff: int) -> nat
    decreases s.len(),
{
    if s.len() == 0 {
        0
    } else {
        count_fresh(s.drop_last(), cutoff) + if s.last().0 >= cutoff { 1nat } else { 0 }
    }
}

/// A counter's window length, retained samples (time and running total) and
/// total.
pub struct WindowView {
    pub window_us: u64,
    pub samples: Seq<(u64, u64)>,
    pub total: nat,
}

/// A counter that has seen nothing.
pub open spec fn window_empty(window_us: u64) -> WindowView {
    WindowView { window_us, samples: Seq::empty(), total: 0 }
}

/// The counter after an event at `now_us`: the event is added, and samples
/// that left the window are forgotten.
pub open spec fn window_step(w: WindowView, now_us: u64) -> WindowView {
    WindowView {
        window_us: w.window_us,
        samples: drop_stale(
            w.samples.push((now_us, (w.total + 1) as u64)),
            window_start(now_us, w.window_us),
        ),
        total: w.total + 1,
    }
}

/// The counter after events at the given times.
pub open spec fn window_after(window_us: u64, times: Seq<u64>) -> WindowView
    decreases times.len(),
{
    if times.len() == 0 {
        window_empty(window_us)
    } else {
        window_step(window_after(window_us, times.drop_last()), times.last())
    }
}

/// How many of `times` are not older than `cutoff`.
pub open spec fn times_since(times: Seq<u64>, cutoff: int) -> nat
    decreases times.len(),
{
    if times.len() == 0 {
        0
    } else {
        times_since(times.drop_last(), cutoff) + if times.last() >= cutoff { 1nat } else { 0 }
    }
}

/// Times never run backwards.
pub open spec fn non_decreasing(times: Seq<u64>) -> bool {
    forall|i: int, j: int| 0 <= i <= j < times.len() ==> times[i] <= times[j]
}

/// Dropping stale samples does not change a count that starts no earlier.
proof fn stale_samples_do_not_count(s: Seq<(u64, u64)>, cutoff: int, from: int)
    requires
        cutoff <= from,
    ensures
        count_fresh(drop_stale(s, cutoff), from) == count_fresh(s, from),
    decreases s.len(),
{
    if s.len() > 0 && s[0].0 < cutoff {
        let t = s.subrange(1, s.len() as int);
        stale_samples_do_not_count(t, cutoff, from);
        stale_head_does_not_count(s, from);
    }
}

proof fn stale_head_does_not_count(s: Seq<(u64, u64)>, from: int)
    requires
        s.len() > 0,
        s[0].0 < from,
    ensures
        count_fresh(s.subrange(1, s.len() as int), from) == count_fresh(s, from),
    decreases s.len(),
{
    let t = s.subrange(1, s.len() as int);
    if s.len() == 1 {
        assert(s.drop_last() =~= Seq::empty());
        assert(t =~= Seq::empty());
    } else {
        stale_head_does_not_count(s.drop_last(), from);
        assert(t.drop_last() =~= s.drop_last().subrange(1, s.len() - 1));
        assert(t.last() == s.last());
    }
}

/// Forgetting old samples loses nothing that a reading can still see: while
/// time does not run backwards, the count at `now_us` is the number of all
/// events ever pushed that fall into the window ending at `now_us`.
pub proof fn window_count_is_exact(window_us: u64, times: Seq<u64>, now_us: u64)
    requires
        non_decreasing(times),
        times.len() > 0 ==> times.last() <= now_us,
    ensures
        count_fresh(window_after(window_us, times).samples, window_start(now_us, window_us))
            == times_since(times, window_start(now_us, window_us)),
    decreases times.len(),
{
    let from = window_start(now_us, window_us);
    if times.len() > 0 {
        let before = times.drop_last();
        assert(non_decreasing(before));
        if before.len() > 0 {
            assert(before.last() == times[times.len() - 2]);
        }
        window_count_is_exact(window_us, before, now_us);
        let w = window_after(window_us, before);
        let pushed = w.samples.push((times.last(), (w.total + 1) as u64));
        assert(pushed.drop_last() =~= w.samples);
        stale_samples_do_not_count(pushed, window_start(times.last(), window_us), from);
        window_after_keeps_window(window_us, before);
    }
}

proof fn window_after_keeps_window(window_us: u64, times: Seq<u64>)
    ensures
        window_after(window_us, times).window_us == window_us,
        window_after(window_us, times).total == times.len(),
    decreases times.len(),
{
    if times.len() > 0 {
        window_after_keeps_window(window_us, times.drop_last());
    }
}

/// What is left without the stale samples is the end of the sequence.
proof fn fresh_samples_are_the_end(s: Seq<(u64, u64)>, cutoff: int)
    ensures
        drop_stale(s, cutoff).len() <= s.len(),
        drop_stale(s, cutoff) == s.subrange(s.len() - drop_stale(s, cutoff).len(), s.len() as int),
        forall|i: int|
            0 <= i < s.len() - drop_stale(s, cutoff).len() ==> (#[trigger] s[i]).0 < cutoff,
        drop_stale(s, cutoff).len() > 0 ==> drop_stale(s, cutoff)[0].0 >= cutoff,
    decreases s.len(),
{
    let d = drop_stale(s, cutoff);
    if s.len() > 0 && s[0].0 < cutoff {
        let t = s.subrange(1, s.len() as int);
        fresh_samples_are_the_end(t, cutoff);
        assert(d =~= s.subrange(s.len() - d.len(), s.len() as int));
        assert forall|i: int| 0 <= i < s.len() - d.len() implies (#[trigger] s[i]).0 < cutoff by {
            if i > 0 {
                assert(t[i - 1].0 < cutoff);
            }
        }
    } else {
        assert(d =~= s.subrange(s.len() - d.len(), s.len() as int));
    }
}

proof fn fresh_samples_all_count(s: Seq<(u64, u64)>, cutoff: int)
    requires
        forall|i: int| 0 <= i < s.len() ==> (#[trigger] s[i]).0 >= cutoff,
    ensures
        count_fresh(s, cutoff) == s.len(),
    decreases s.len(),
{
    if s.len() > 0 {
        fresh_samples_all_count(s.drop_last(), cutoff);
    }
}

/// While time does not run backwards, the events still held after a push are
/// exactly those in the window that ends at it, oldest first, and the total
/// counts them all. A reading at time zero counts what is held.
pub proof fn held_events_are_those_in_the_window(window_us: u64, times: Seq<u64>)
    requires
        times.len() > 0,
        non_decreasing(times),
    ensures
        ({
            let w = window_after(window_us, times);
            let start = window_start(times.last(), window_us);
            let gone = times.len() - w.samples.len();
            &&& w.window_us == window_us
            &&& w.total == times.len()
            &&& 0 <= gone
            &&& forall|k: int|
                0 <= k < w.samples.len() ==> (#[trigger] w.samples[k]).0 == times[gone + k]
            &&& forall|j: int|
                0 <= j < times.len() ==> (#[trigger] times[j] >= start <==> j >= gone)
            &&& w.samples.len() == times_since(times, start)
            &&& count_fresh(w.samples, window_start(0, window_us)) == w.samples.len()
        }),
    decreases times.len(),
{
    let before = times.drop_last();
    let w0 = window_after(window_us, before);
    let w = window_after(window_us, times);
    let now_us = times.last();
    let start = window_start(now_us, window_us);
    let pushed = w0.samples.push((now_us, (w0.total + 1) as u64));
    let gone0 = before.len() - w0.samples.len();
    let gone = times.len() - w.samples.len();
    window_after_keeps_window(window_us, times);
    window_after_keeps_window(window_us, before);
    fresh_samples_are_the_end(pushed, start);
    if before.len() > 0 {
        assert(non_decreasing(before));
        held_events_are_those_in_the_window(window_us, before);
        assert(before.last() == times[times.len() - 2]);
    }
    assert forall|k: int| 0 <= k < pushed.len() implies (#[trigger] pushed[k]).0 == times[gone0
        + k] by {
        if k < w0.samples.len() {
            assert(pushed[k] == w0.samples[k]);
        }
    }
    assert forall|k: int| 0 <= k < w.samples.len() implies (#[trigger] w.samples[k]).0
        == times[gone + k] by {
        assert(w.samples[k] == pushed[gone - gone0 + k]);
    }
    assert forall|j: int| 0 <= j < times.len() implies (#[trigger] times[j] >= start <==> j
        >= gone) by {
        if j < gone0 {
            assert(before[j] == times[j]);
        } else if j < gone {
            assert(pushed[j - gone0].0 == times[j]);
        } else {
            assert(w.samples[0].0 == times[gone]);
        }
    }
    assert forall|k: int| 0 <= k < w.samples.len() implies (#[trigger] w.samples[k]).0
        >= start by {
        assert(times[gone + k] >= start);
    }
    fresh_samples_all_count(w.samples, start);
    fresh_samples_all_count(w.samples, 0);
    window_count_is_exact(window_us, times, now_us);
}

/// A fixed-width sliding-window event counter.
pub struct WindowCounter {
    samples: VecDeque<(u64, u64)>,
    window_us: u64,
    total: u64,
}

impl View for WindowCounter {
    type V = WindowView;

    closed spec fn view(&self) -> WindowView {
        WindowView { window_us: self.window_us, samples: self.samples@, total: self.total as nat }
    }
}

impl WindowCounter {
    pub fn new(window_us: u64) -> (w: Self)
        ensures
            w@ == window_empty(window_us),
    {
        Self { samples: VecDeque::with_capacity(8), window_us, total: 0 }
    }

    /// Records an event.
    pub fn push(&mut self, now_us: u64)
        requires
            old(self)@.total < u64::MAX,
        ensures
            final(self)@ == window_step(old(self)@, now_us),
    {
        self.total += 1;
        self.samples.push_back((now_us, self.total));
        let cutoff: u64 = now_us.saturating_sub(self.window_us);
        let ghost pushed = self.samples@;
        let ghost entry = *self;
        while self.samples.len() > 0 && self.samples[0].0 < cutoff
            invariant
                self.window_us == entry.window_us,
                self.total == entry.total,
                drop_stale(self.samples@, cutoff as int) == drop_stale(pushed, cutoff as int),
            decreases self.samples@.len(),
        {
            let ghost s = self.samples@;
            let _ = self.samples.pop_front();
            assert(self.samples@ =~= s.subrange(1, s.len() as int));
        }
    }

    /// Number of events inside the window that ends at `now_us`.
    pub fn count(&self, now_us: u64) -> (n: u64)
        ensures
            n == count_fresh(self@.samples, window_start(now_us, self@.window_us)),
    {
        let cutoff: u64 = now_us.saturating_sub(self.window_us);
        let mut n: u64 = 0;
        let mut i: usize = 0;
        while i < self.samples.len()
            invariant
                i <= self.samples@.len(),
                n <= i,
                n == count_fresh(self.samples@.subrange(0, i as int), cutoff as int),
            decreases self.samples@.len() - i,
        {
            if self.samples[i].0 >= cutoff {
                n += 1;
            }
            i += 1;
            assert(self.samples@.subrange(0, i as int).drop_last() =~= self.samples@.subrange(
                0,
                i - 1,
            ));
        }
        assert(self.samples@.subrange(0, i as int) =~= self.samples@);
        n
    }

    /// Number of events since the start.
    pub fn total(&self) -> (n: u64)
        ensures
            n == self@.total,
    {
        self.total
    }

    /// Length of the window.
    pub fn window_us(&self) -> (n: u64)
        ensures
            n == self@.window_us,
    {
        self.window_us
    }

    /// Forgets all events.
    pub fn reset(&mut self)
        ensures
            final(self)@ == window_empty(old(self)@.window_us),
    {
        self.samples.clear();
        self.total = 0;
    }
}

} // verus!

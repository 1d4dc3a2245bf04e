//! Gap and loss tracking over a stream of sequence numbers.

use vstd::prelude::*;

verus! {

/// Result of feeding a sequence number to a [`SequenceTracker`].
#[derive(Clone, Copy, Debug, PartialEq, Eq, Structural)]
pub struct SeqEvent {
    /// The seq that was observed.
    pub seq: u32,
    /// True when this seq was not the expected next one (a gap or a resync).
    pub jumped: bool,
    /// Number of sequences skipped (0 for in-order).
    pub gap: u32,
    /// True when the observed seq was behind the expected one, as after a
    /// stream restart or with a late frame.
    pub resync: bool,
}

impl Default for SeqEvent {
    fn default() -> (e: Self)
        ensures
            e == (SeqEvent { seq: 0, jumped: false, gap: 0, resync: false }),
    {
        Self { seq: 0, jumped: false, gap: 0, resync: false }
    }
}

/// What a tracker knows: the sequence number due next, if any was seen, and
/// its counters.
pub struct TrackerView {
    pub expected: Option<u32>,
    pub total: nat,
    pub gaps: nat,
    pub lost: nat,
    pub resyncs: nat,
}

/// A tracker that has seen nothing.
pub open spec fn tracker_start() -> TrackerView {
    TrackerView { expected: None, total: 0, gaps: 0, lost: 0, resyncs: 0 }
}

/// The sequence number after `seq`; the counter wraps.
pub open spec fn seq_after(seq: u32) -> u32 {
    ((seq + 1) % 0x1_0000_0000) as u32
}

/// How far `seq` lies ahead of `expected` on the wrapping counter.
pub open spec fn seq_ahead(seq: u32, expected: u32) -> u32 {
    ((seq - expected) % 0x1_0000_0000) as u32
}

/// What observing `seq` means to a tracker. More than half the counter ahead
/// counts as behind.
pub open spec fn seq_event(t: TrackerView, seq: u32) -> SeqEvent {
    match t.expected {
        None => SeqEvent { seq, jumped: false, gap: 0, resync: false },
        Some(expected) => {
            let ahead = seq_ahead(seq, expected);
            if ahead == 0 {
                SeqEvent { seq, jumped: false, gap: 0, resync: false }
            } else if ahead > 0x8000_0000 {
                SeqEvent { seq, jumped: true, gap: 0, resync: true }
            } else {
                SeqEvent { seq, jumped: true, gap: ahead, resync: false }
            }
        },
    }
}

/// The tracker after observing `seq`: every packet skipped counts as expected
/// and lost.
pub open spec fn tracker_step(t: TrackerView, seq: u32) -> TrackerView {
    let e = seq_event(t, seq);
    TrackerView {
        expected: Some(seq_after(seq)),
        total: t.total + 1 + e.gap as nat,
        gaps: t.gaps + if e.gap > 0 { 1nat } else { 0 },
        lost: t.lost + e.gap as nat,
        resyncs: t.resyncs + if e.resync { 1nat } else { 0 },
    }
}

/// The tracker after observing a whole stream.
pub open spec fn tracker_after(seqs: Seq<u32>) -> TrackerView
    decreases seqs.len(),
{
    if seqs.len() == 0 {
        tracker_start()
    } else {
        tracker_step(tracker_after(seqs.drop_last()), seqs.last())
    }
}

/// Every observed packet is counted once, on top of the lost ones, so the loss
/// ratio `lost / total` lies between 0 and 1; and each observation is at most
/// one gap or one resync.
pub proof fn tracker_accounts_for_every_packet(seqs: Seq<u32>)
    ensures
        tracker_after(seqs).total == seqs.len() + tracker_after(seqs).lost,
        tracker_after(seqs).gaps + tracker_after(seqs).resyncs <= seqs.len(),
        tracker_after(seqs).gaps <= tracker_after(seqs).lost,
    decreases seqs.len(),
{
    if seqs.len() > 0 {
        tracker_accounts_for_every_packet(seqs.drop_last());
    }
}

/// A stream without holes shows no gap, loss or resync, wherever it starts and
/// however often the counter wraps.
pub proof fn tracker_in_order_stream(first: u32, n: nat)
    ensures
        tracker_after(
            Seq::new(n, |i: int| ((first + i) % 0x1_0000_0000) as u32),
        ) == (TrackerView {
            expected: if n == 0 {
                None
            } else {
                Some(((first + n) % 0x1_0000_0000) as u32)
            },
            total: n,
            gaps: 0,
            lost: 0,
            resyncs: 0,
        }),
    decreases n,
{
    let s = Seq::new(n, |i: int| ((first + i) % 0x1_0000_0000) as u32);
    if n > 0 {
        let m = (n - 1) as nat;
        tracker_in_order_stream(first, m);
        assert(s.drop_last() =~= Seq::new(m, |i: int| ((first + i) % 0x1_0000_0000) as u32));
        assert(s.last() == ((first + m) % 0x1_0000_0000) as u32);
        assert(((first + m) % 0x1_0000_0000 + 1) % 0x1_0000_0000 == (first + n) % 0x1_0000_0000);
    }
}

/// What an observation means follows from the one before it alone: nothing
/// can be missing before the first, the next number in turn is in order, up to
/// half the counter ahead is a gap of lost packets, and anything else a
/// resync that loses none.
pub proof fn observation_is_measured_against_the_previous(seqs: Seq<u32>, seq: u32)
    ensures
        ({
            let before = tracker_after(seqs);
            let after = tracker_after(seqs.push(seq));
            let e = seq_event(before, seq);
            let ahead = seq_ahead(seq, seq_after(seqs.last()));
            &&& after == tracker_step(before, seq)
            &&& e.seq == seq
            &&& seqs.len() == 0 || ahead == 0 ==> {
                &&& !e.jumped && e.gap == 0 && !e.resync
                &&& after.total == before.total + 1
                &&& after.gaps == before.gaps && after.lost == before.lost
                &&& after.resyncs == before.resyncs
            }
            &&& seqs.len() > 0 && 0 < ahead <= 0x8000_0000 ==> {
                &&& e.jumped && e.gap == ahead && !e.resync
                &&& after.total == before.total + 1 + ahead
                &&& after.gaps == before.gaps + 1 && after.lost == before.lost + ahead
                &&& after.resyncs == before.resyncs
            }
            &&& seqs.len() > 0 && ahead > 0x8000_0000 ==> {
                &&& e.jumped && e.gap == 0 && e.resync
                &&& after.total == before.total + 1
                &&& after.gaps == before.gaps && after.lost == before.lost
                &&& after.resyncs == before.resyncs + 1
            }
        }),
{
    assert(seqs.push(seq).drop_last() =~= seqs);
}

/// Whatever was seen before, the number after the last one is in order.
pub proof fn successor_never_jumps(t: TrackerView, seq: u32)
    ensures
        seq_event(tracker_step(t, seq), seq_after(seq)) == (SeqEvent {
            seq: seq_after(seq),
            jumped: false,
            gap: 0,
            resync: false,
        }),
{
}

/// Monitors a monotonically increasing sequence-number stream (the
/// transmitter's global packet counter) and reports gaps, across wraparound.
pub struct SequenceTracker {
    expected: u32,
    initialized: bool,
    total: u64,
    gaps: u64,
    lost: u64,
    resyncs: u64,
}

impl View for SequenceTracker {
    type V = TrackerView;

    closed spec fn view(&self) -> TrackerView {
        TrackerView {
            expected: if self.initialized { Some(self.expected) } else { None },
            total: self.total as nat,
            gaps: self.gaps as nat,
            lost: self.lost as nat,
            resyncs: self.resyncs as nat,
        }
    }
}

impl Default for SequenceTracker {
    fn default() -> (t: Self)
        ensures
            t@ == tracker_start(),
            t.well_formed(),
    {
        Self::new()
    }
}

impl SequenceTracker {
    /// No counter exceeds the number of packets accounted for.
    pub open spec fn well_formed(&self) -> bool {
        &&& self@.lost <= self@.total
        &&& self@.gaps + self@.resyncs <= self@.total
        &&& self@.total <= u64::MAX
    }

    pub fn new() -> (t: Self)
        ensures
            t@ == tracker_start(),
            t.well_formed(),
    {
        Self { expected: 0, initialized: false, total: 0, gaps: 0, lost: 0, resyncs: 0 }
    }

    /// Feeds the next observed sequence number. Returns what happened.
    pub fn observe(&mut self, seq: u32) -> (e: SeqEvent)
        requires
            old(self).well_formed(),
            tracker_step(old(self)@, seq).total <= u64::MAX,
        ensures
            e == seq_event(old(self)@, seq),
            final(self)@ == tracker_step(old(self)@, seq),
            final(self).well_formed(),
    {
        if !self.initialized {
            self.initialized = true;
            self.expected = seq.wrapping_add(1);
            self.total += 1;
            return SeqEvent { seq, jumped: false, gap: 0, resync: false };
        }
        let gap: u32 = seq.wrapping_sub(self.expected);
        assert(gap == seq_ahead(seq, self.expected));
        if gap == 0 {
            self.expected = seq.wrapping_add(1);
            self.total += 1;
            SeqEvent { seq, jumped: false, gap: 0, resync: false }
        } else if gap > 0x8000_0000 {
            // Behind: a stream restart or a very late frame, not a giant gap.
            self.resyncs += 1;
            self.total += 1;
            self.expected = seq.wrapping_add(1);
            SeqEvent { seq, jumped: true, gap: 0, resync: true }
        } else {
            self.gaps += 1;
            self.lost += gap as u64;
            self.total += 1 + gap as u64;
            self.expected = seq.wrapping_add(1);
            SeqEvent { seq, jumped: true, gap, resync: false }
        }
    }

    /// Packets skipped so far.
    pub fn lost(&self) -> (n: u64)
        ensures
            n == self@.lost,
    {
        self.lost
    }

    /// Packets accounted for so far, observed and skipped.
    pub fn total(&self) -> (n: u64)
        ensures
            n == self@.total,
    {
        self.total
    }

    /// Forward jumps so far.
    pub fn gaps(&self) -> (n: u64)
        ensures
            n == self@.gaps,
    {
        self.gaps
    }

    /// Backward jumps so far.
    pub fn resyncs(&self) -> (n: u64)
        ensures
            n == self@.resyncs,
    {
        self.resyncs
    }

    /// Forgets the stream.
    pub fn reset(&mut self)
        ensures
            final(self)@ == tracker_start(),
            final(self).well_formed(),
    {
        *self = Self::new();
    }
}

} // verus!

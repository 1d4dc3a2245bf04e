//! Pairing of the two receivers' reports by transmitter sequence number.

use std::collections::VecDeque;

use vstd::prelude::*;

use crate::protocol::node;
use crate::protocol::FeatureReport;
use crate::transport::window::WindowCounter;

verus! {

/// A report from one receiver, keyed by the transmitter sequence it covers.
#[derive(Clone, Copy, Debug)]
pub struct StampedReport {
    /// Last TX seq this report covers.
    pub seq: u32,
    /// Report body.
    pub report: FeatureReport,
    /// Local receive timestamp (microseconds) for latency tracking.
    pub rx_t_us: u64,
}

/// One time-aligned pair of RX1/RX2 reports, ready for fusion.
#[derive(Clone, Copy, Debug)]
pub struct PairedFrames {
    /// Sequence number the pair is aligned on (the later of the two).
    pub seq: u32,
    pub rx1: FeatureReport,
    pub rx2: FeatureReport,
    /// Distance between the two reports' sequence numbers; smaller is better.
    pub seq_delta: u32,
}

/// Most reports a link may have waiting.
pub const MAX_WAITING: usize = 64;

/// Reports wait in order of their sequence numbers.
pub open spec fn in_seq_order(q: Seq<StampedReport>) -> bool {
    forall|i: int, j: int| 0 <= i <= j < q.len() ==> q[i].seq <= q[j].seq
}

/// Distance of two sequence numbers.
pub open spec fn seq_distance(a: u32, b: u32) -> int {
    if a >= b {
        a - b
    } else {
        b - a
    }
}

/// The place for a new report: in front of the first one with a higher
/// sequence number.
pub open spec fn place_for(q: Seq<StampedReport>, seq: u32) -> int
    decreases q.len(),
{
    if q.len() == 0 || q[0].seq > seq {
        0
    } else {
        1 + place_for(q.subrange(1, q.len() as int), seq)
    }
}

/// The queue after a report arrives: the report takes its place, and the
/// oldest report leaves a queue that grew too long.
pub open spec fn enqueued(q: Seq<StampedReport>, r: StampedReport) -> Seq<StampedReport> {
    let longer = q.insert(place_for(q, r.seq), r);
    if longer.len() > 64 {
        longer.subrange(1, longer.len() as int)
    } else {
        longer
    }
}

/// The two queues once no front report lags the other link's front report by
/// more than `tolerance`: such a report can no longer be paired and leaves.
pub open spec fn settled(
    q1: Seq<StampedReport>,
    q2: Seq<StampedReport>,
    tolerance: u32,
) -> (Seq<StampedReport>, Seq<StampedReport>)
    decreases q1.len() + q2.len(),
{
    if q1.len() == 0 || q2.len() == 0 {
        (q1, q2)
    } else if q2[0].seq - q1[0].seq > tolerance {
        settled(q1.subrange(1, q1.len() as int), q2, tolerance)
    } else if q1[0].seq - q2[0].seq > tolerance {
        settled(q1, q2.subrange(1, q2.len() as int), tolerance)
    } else {
        (q1, q2)
    }
}

/// `i` is the place of the report nearest to `seq`; of equally near ones the
/// first.
pub open spec fn nearest(q: Seq<StampedReport>, seq: u32, i: int) -> bool {
    &&& 0 <= i < q.len()
    &&& forall|j: int| 0 <= j < q.len() ==> seq_distance(q[i].seq, seq) <= seq_distance(q[j].seq, seq)
    &&& forall|j: int| 0 <= j < i ==> seq_distance(q[i].seq, seq) < seq_distance(q[j].seq, seq)
}

/// The pair made of a first-link and a second-link report.
pub open spec fn paired(r1: StampedReport, r2: StampedReport) -> PairedFrames {
    PairedFrames {
        seq: if r2.seq >= r1.seq { r2.seq } else { r1.seq },
        rx1: r1.report,
        rx2: r2.report,
        seq_delta: seq_distance(r1.seq, r2.seq) as u32,
    }
}

/// A pair holds each link's report in its own place, under the later of the
/// two numbers, and tells how far they are apart.
pub proof fn pairs_keep_the_links_apart(r1: StampedReport, r2: StampedReport)
    ensures
        paired(r1, r2).rx1 == r1.report,
        paired(r1, r2).rx2 == r2.report,
        paired(r1, r2).seq >= r1.seq && paired(r1, r2).seq >= r2.seq,
        paired(r1, r2).seq == r1.seq || paired(r1, r2).seq == r2.seq,
        paired(r1, r2).seq - paired(r1, r2).seq_delta == if r1.seq <= r2.seq {
            r1.seq
        } else {
            r2.seq
        },
{
}

/// A report that `settled` would drop from the front of the first queue has no
/// partner within tolerance anywhere in the second; and the other way round.
pub proof fn dropped_report_has_no_partner(
    q1: Seq<StampedReport>,
    q2: Seq<StampedReport>,
    tolerance: u32,
)
    requires
        q1.len() > 0,
        q2.len() > 0,
        in_seq_order(q1),
        in_seq_order(q2),
    ensures
        q2[0].seq - q1[0].seq > tolerance ==> forall|j: int|
            0 <= j < q2.len() ==> seq_distance(#[trigger] q2[j].seq, q1[0].seq) > tolerance,
        q1[0].seq - q2[0].seq > tolerance ==> forall|j: int|
            0 <= j < q1.len() ==> seq_distance(#[trigger] q1[j].seq, q2[0].seq) > tolerance,
{
    assert forall|j: int| 0 <= j < q2.len() implies q2[0].seq <= #[trigger] q2[j].seq by {}
    assert forall|j: int| 0 <= j < q1.len() implies q1[0].seq <= #[trigger] q1[j].seq by {}
}

/// Settling only removes reports from the fronts, keeps the order, and leaves
/// two fronts within tolerance or an empty queue.
pub proof fn settled_fronts_are_close(
    q1: Seq<StampedReport>,
    q2: Seq<StampedReport>,
    tolerance: u32,
)
    ensures
        ({
            let (a, b) = settled(q1, q2, tolerance);
            &&& a.len() <= q1.len()
            &&& b.len() <= q2.len()
            &&& a == q1.subrange(q1.len() - a.len(), q1.len() as int)
            &&& b == q2.subrange(q2.len() - b.len(), q2.len() as int)
            &&& a.len() == 0 || b.len() == 0 || seq_distance(a[0].seq, b[0].seq) <= tolerance
        }),
    decreases q1.len() + q2.len(),
{
    let (a, b) = settled(q1, q2, tolerance);
    if q1.len() == 0 || q2.len() == 0 {
        assert(a =~= q1.subrange(q1.len() - a.len(), q1.len() as int));
        assert(b =~= q2.subrange(q2.len() - b.len(), q2.len() as int));
    } else if q2[0].seq - q1[0].seq > tolerance {
        let t = q1.subrange(1, q1.len() as int);
        settled_fronts_are_close(t, q2, tolerance);
        assert(a =~= q1.subrange(q1.len() - a.len(), q1.len() as int));
    } else if q1[0].seq - q2[0].seq > tolerance {
        let t = q2.subrange(1, q2.len() as int);
        settled_fronts_are_close(q1, t, tolerance);
        assert(b =~= q2.subrange(q2.len() - b.len(), q2.len() as int));
    } else {
        assert(a =~= q1.subrange(q1.len() - a.len(), q1.len() as int));
        assert(b =~= q2.subrange(q2.len() - b.len(), q2.len() as int));
    }
}

/// The nearest partner of the front report of a settled first queue lies
/// within tolerance.
pub proof fn nearest_partner_is_within_tolerance(
    q1: Seq<StampedReport>,
    q2: Seq<StampedReport>,
    tolerance: u32,
    i: int,
)
    requires
        settled(q1, q2, tolerance).0.len() > 0,
        settled(q1, q2, tolerance).1.len() > 0,
        nearest(settled(q1, q2, tolerance).1, settled(q1, q2, tolerance).0[0].seq, i),
    ensures
        seq_distance(
            settled(q1, q2, tolerance).1[i].seq,
            settled(q1, q2, tolerance).0[0].seq,
        ) <= tolerance,
{
    settled_fronts_are_close(q1, q2, tolerance);
}

/// Distances count the numbers between two reports, whichever comes first.
pub proof fn seq_distance_is_symmetric(a: u32, b: u32)
    ensures
        seq_distance(a, b) == seq_distance(b, a),
        a <= b ==> seq_distance(a, b) == b - a,
        seq_distance(a, b) == 0 <==> a == b,
{
}

/// Reports wait for as long as they may still pair: two fronts within
/// tolerance stay, and every report that settling drops has no partner within
/// tolerance anywhere in the other queue.
pub proof fn only_hopeless_reports_are_dropped(
    q1: Seq<StampedReport>,
    q2: Seq<StampedReport>,
    tolerance: u32,
)
    requires
        in_seq_order(q1),
        in_seq_order(q2),
    ensures
        ({
            let (a, b) = settled(q1, q2, tolerance);
            &&& forall|i: int, j: int|
                0 <= i < q1.len() - a.len() && 0 <= j < q2.len() ==> seq_distance(
                    (#[trigger] q1[i]).seq,
                    (#[trigger] q2[j]).seq,
                ) > tolerance
            &&& forall|i: int, j: int|
                0 <= i < q1.len() && 0 <= j < q2.len() - b.len() ==> seq_distance(
                    (#[trigger] q1[i]).seq,
                    (#[trigger] q2[j]).seq,
                ) > tolerance
            &&& q1.len() > 0 && q2.len() > 0 && seq_distance(q1[0].seq, q2[0].seq) <= tolerance
                ==> a == q1 && b == q2
        }),
    decreases q1.len() + q2.len(),
{
    let (a, b) = settled(q1, q2, tolerance);
    if q1.len() > 0 && q2.len() > 0 {
        if q2[0].seq - q1[0].seq > tolerance {
            let t = q1.subrange(1, q1.len() as int);
            tail_keeps_order(q1);
            only_hopeless_reports_are_dropped(t, q2, tolerance);
            settled_fronts_are_close(t, q2, tolerance);
            assert forall|i: int, j: int|
                0 <= i < q1.len() && 0 <= j < q2.len() && (i < q1.len() - a.len() || j < q2.len()
                    - b.len()) implies seq_distance((#[trigger] q1[i]).seq, (#[trigger] q2[j]).seq)
                > tolerance by {
                assert(q2[0].seq <= q2[j].seq);
                if i > 0 {
                    assert(t[i - 1] == q1[i]);
                }
            }
        } else if q1[0].seq - q2[0].seq > tolerance {
            let t = q2.subrange(1, q2.len() as int);
            tail_keeps_order(q2);
            only_hopeless_reports_are_dropped(q1, t, tolerance);
            settled_fronts_are_close(q1, t, tolerance);
            assert forall|i: int, j: int|
                0 <= i < q1.len() && 0 <= j < q2.len() && (i < q1.len() - a.len() || j < q2.len()
                    - b.len()) implies seq_distance((#[trigger] q1[i]).seq, (#[trigger] q2[j]).seq)
                > tolerance by {
                assert(q1[0].seq <= q1[i].seq);
                if j > 0 {
                    assert(t[j - 1] == q2[j]);
                }
            }
        }
    }
}

/// The pair that is taken joins the oldest report of the first link that may
/// still pair with the closest one of the second: no report that stays behind
/// is closer to it, and none of the first link's is older.
pub proof fn the_closest_partner_is_taken(
    before: &Pairer,
    after: &Pairer,
    now_us: u64,
    pair: PairedFrames,
)
    requires
        before.well_formed(),
        pair_taken(before, after, now_us, Some(pair)),
    ensures
        exists|r1: StampedReport, r2: StampedReport|
            {
                &&& #[trigger] before.waiting1().contains(r1)
                &&& #[trigger] before.waiting2().contains(r2)
                &&& pair.rx1 == r1.report && pair.rx2 == r2.report
                &&& pair.seq_delta == if r1.seq <= r2.seq {
                    r2.seq - r1.seq
                } else {
                    r1.seq - r2.seq
                }
                &&& pair.seq_delta <= before.tolerance
                &&& forall|j: int|
                    0 <= j < after.waiting2().len() ==> seq_distance(
                        (#[trigger] after.waiting2()[j]).seq,
                        r1.seq,
                    ) >= pair.seq_delta
                &&& forall|j: int|
                    0 <= j < after.waiting1().len() ==> (#[trigger] after.waiting1()[j]).seq
                        >= r1.seq
            },
{
    let (a, b) = settled(before.waiting1(), before.waiting2(), before.tolerance);
    settled_fronts_are_close(before.waiting1(), before.waiting2(), before.tolerance);
    let i = choose|i: int| #[trigger]
        nearest(b, a[0].seq, i) && pair == paired(a[0], b[i]) && after.waiting2() == b.remove(i);
    let (d1, d2) = (before.waiting1().len() - a.len(), before.waiting2().len() - b.len());
    assert(before.waiting1()[d1] == a[0]);
    assert(before.waiting2()[d2 + i] == b[i]);
    assert(before.waiting1().contains(a[0]));
    assert(before.waiting2().contains(b[i]));
    assert forall|j: int| 0 <= j < after.waiting2().len() implies seq_distance(
        (#[trigger] after.waiting2()[j]).seq,
        a[0].seq,
    ) >= pair.seq_delta by {
        let k = if j < i {
            j
        } else {
            j + 1
        };
        assert(after.waiting2()[j] == b[k]);
        assert(seq_distance(b[i].seq, a[0].seq) <= seq_distance(b[k].seq, a[0].seq));
    }
    assert forall|j: int| 0 <= j < after.waiting1().len() implies (
    #[trigger] after.waiting1()[j]).seq >= a[0].seq by {
        assert(after.waiting1()[j] == before.waiting1()[d1 + 1 + j]);
    }
}

/// A report joins its own link's queue and no other; one of another node joins
/// none. A queue that is full gives up a report with the lowest number.
pub proof fn reports_join_their_own_queue(
    before: &Pairer,
    after: &Pairer,
    node_id: u8,
    report: FeatureReport,
    now_us: u64,
    x: StampedReport,
)
    requires
        before.well_formed(),
        pushed(before, after, node_id, report, now_us),
    ensures
        node_id != 2 ==> after.waiting1() == before.waiting1(),
        node_id != 3 ==> after.waiting2() == before.waiting2(),
        ({
            let (old_q, q) = if node_id == 2 {
                (before.waiting1(), after.waiting1())
            } else {
                (before.waiting2(), after.waiting2())
            };
            let r = StampedReport { seq: report.seq, report, rx_t_us: now_us };
            node_id == 2 || node_id == 3 ==> {
                &&& q.len() == if old_q.len() < 64 {
                    old_q.len() + 1
                } else {
                    64
                }
                &&& old_q.len() < 64 && (x == r || old_q.contains(x)) ==> q.contains(x)
                &&& (x == r || old_q.contains(x)) && !q.contains(x) ==> forall|j: int|
                    0 <= j < q.len() ==> x.seq <= (#[trigger] q[j]).seq
            }
        }),
{
    let r = StampedReport { seq: report.seq, report, rx_t_us: now_us };
    let q = if node_id == 2 {
        before.waiting1()
    } else {
        before.waiting2()
    };
    enqueued_holds(q, r, r);
    if q.contains(x) {
        enqueued_holds(q, r, x);
    }
}

proof fn enqueued_holds(q: Seq<StampedReport>, r: StampedReport, x: StampedReport)
    requires
        in_seq_order(q),
        q.len() <= 64,
        x == r || q.contains(x),
    ensures
        enqueued(q, r).len() == if q.len() < 64 {
            q.len() + 1
        } else {
            64
        },
        q.len() < 64 ==> enqueued(q, r).contains(x),
        !enqueued(q, r).contains(x) ==> forall|j: int|
            0 <= j < enqueued(q, r).len() ==> x.seq <= (#[trigger] enqueued(q, r)[j]).seq,
{
    place_splits_queue(q, r.seq);
    let p = place_for(q, r.seq);
    let longer = q.insert(p, r);
    let k = if x == r {
        p
    } else {
        let i = choose|i: int| 0 <= i < q.len() && q[i] == x;
        if i < p {
            i
        } else {
            i + 1
        }
    };
    assert(longer[k] == x);
    let e = enqueued(q, r);
    if longer.len() > 64 {
        if k > 0 {
            assert(e[k - 1] == x);
        } else {
            assert forall|j: int| 0 <= j < e.len() implies x.seq <= (#[trigger] e[j]).seq by {
                assert(e[j] == longer[j + 1]);
                if p == 0 {
                    assert(longer[j + 1] == q[j]);
                    assert(q[j].seq > r.seq);
                } else if j + 1 == p {
                    assert(longer[j + 1] == r);
                    assert(q[0].seq <= r.seq);
                } else {
                    let m = if j + 1 < p {
                        j + 1
                    } else {
                        j
                    };
                    assert(longer[j + 1] == q[m]);
                    assert(q[0].seq <= q[m].seq);
                }
            }
        }
    }
}

/// Taking the next pair loses no report uncounted: what no longer waits is in
/// the pair or among the dropped. Without a pair, one link has nothing left.
pub proof fn every_report_is_accounted_for(
    before: &Pairer,
    after: &Pairer,
    now_us: u64,
    r: Option<PairedFrames>,
)
    requires
        pair_taken(before, after, now_us, r),
    ensures
        before.waiting1().len() + before.waiting2().len() == after.waiting1().len()
            + after.waiting2().len() + (if r is Some { 2int } else { 0 }) + (after.dropped_unpaired
            - before.dropped_unpaired),
        after.pairs_total == before.pairs_total + (if r is Some { 1int } else { 0 }),
        after.dropped_unpaired >= before.dropped_unpaired,
        r is None ==> after.waiting1().len() == 0 || after.waiting2().len() == 0,
{
    settled_fronts_are_close(before.waiting1(), before.waiting2(), before.tolerance);
}

proof fn place_is_found(q: Seq<StampedReport>, seq: u32, i: int)
    requires
        0 <= i <= q.len(),
        forall|k: int| 0 <= k < i ==> q[k].seq <= seq,
        i < q.len() ==> q[i].seq > seq,
    ensures
        place_for(q, seq) == i,
    decreases q.len(),
{
    if i > 0 {
        let t = q.subrange(1, q.len() as int);
        assert(q[0].seq <= seq);
        assert forall|k: int| 0 <= k < i - 1 implies t[k].seq <= seq by {
            assert(t[k] == q[k + 1]);
        }
        place_is_found(t, seq, i - 1);
    }
}

/// A new report keeps the queue ordered and bounded.
pub proof fn enqueued_keeps_order(q: Seq<StampedReport>, r: StampedReport)
    requires
        in_seq_order(q),
        q.len() <= 64,
    ensures
        in_seq_order(enqueued(q, r)),
        enqueued(q, r).len() <= 64,
        enqueued(q, r).len() == if q.len() == 64 { 64 } else { q.len() + 1 },
{
    place_splits_queue(q, r.seq);
    let p = place_for(q, r.seq);
    let longer = q.insert(p, r);
    assert(in_seq_order(longer)) by {
        assert forall|i: int, j: int| 0 <= i <= j < longer.len() implies longer[i].seq
            <= longer[j].seq by {
            let a = if i < p { q[i] } else if i == p { r } else { q[i - 1] };
            let b = if j < p { q[j] } else if j == p { r } else { q[j - 1] };
            assert(longer[i] == a && longer[j] == b);
            if i < p && j == p {
                assert(q[i].seq <= r.seq);
            }
            if i == p && j > p {
                assert(q[j - 1].seq > r.seq);
            }
        }
    }
}

proof fn place_splits_queue(q: Seq<StampedReport>, seq: u32)
    requires
        in_seq_order(q),
    ensures
        0 <= place_for(q, seq) <= q.len(),
        forall|k: int| 0 <= k < place_for(q, seq) ==> (#[trigger] q[k]).seq <= seq,
        forall|k: int| place_for(q, seq) <= k < q.len() ==> (#[trigger] q[k]).seq > seq,
    decreases q.len(),
{
    if q.len() > 0 {
        let t = q.subrange(1, q.len() as int);
        if q[0].seq > seq {
            assert forall|k: int| 0 <= k < q.len() implies (#[trigger] q[k]).seq > seq by {
                assert(q[0].seq <= q[k].seq);
            }
        } else {
            assert(in_seq_order(t)) by {
                assert forall|i: int, j: int| 0 <= i <= j < t.len() implies t[i].seq
                    <= t[j].seq by {
                    assert(q[i + 1].seq <= q[j + 1].seq);
                }
            }
            place_splits_queue(t, seq);
            assert forall|k: int| 0 <= k < place_for(q, seq) implies (#[trigger] q[k]).seq
                <= seq by {
                if k > 0 {
                    assert(t[k - 1].seq <= seq);
                }
            }
            assert forall|k: int| place_for(q, seq) <= k < q.len() implies (#[trigger] q[k]).seq
                > seq by {
                assert(t[k - 1].seq > seq);
            }
        }
    }
}

/// Pairs RX1 and RX2 [`FeatureReport`]s by TX sequence number.
///
/// The two receivers report at their own cadence, so the reports arrive
/// interleaved with a phase offset of up to one report window. This buffer
/// holds the most recent reports per link, greedily pairs the nearest
/// neighbours within `tolerance` frames, and drops reports that can never be
/// paired because the partner is already far ahead.
pub struct Pairer {
    /// Waiting RX1 reports, oldest first.
    pub rx1: VecDeque<StampedReport>,
    /// Waiting RX2 reports, oldest first.
    pub rx2: VecDeque<StampedReport>,
    /// Max seq distance for two reports to belong to the same window.
    pub tolerance: u32,
    pub pairs_total: u64,
    pub dropped_unpaired: u64,
    /// Per-second pair throughput.
    pub pair_rate: WindowCounter,
}

/// What buffering a report does to a pairer: it joins its link's queue, and
/// nothing else changes. Reports from other nodes are ignored.
pub open spec fn pushed(
    before: &Pairer,
    after: &Pairer,
    node_id: u8,
    report: FeatureReport,
    now_us: u64,
) -> bool {
    let stamped = StampedReport { seq: report.seq, report, rx_t_us: now_us };
    &&& after.tolerance == before.tolerance
    &&& after.pairs_total == before.pairs_total
    &&& after.dropped_unpaired == before.dropped_unpaired
    &&& after.pair_rate == before.pair_rate
    &&& after.waiting1() == if node_id == node::RX1 {
        enqueued(before.waiting1(), stamped)
    } else {
        before.waiting1()
    }
    &&& after.waiting2() == if node_id == node::RX2 {
        enqueued(before.waiting2(), stamped)
    } else {
        before.waiting2()
    }
}

/// What taking the next pair does: reports that can no longer pair are dropped;
/// then, if both links still have reports, the oldest one of the first link
/// leaves together with the nearest one of the second.
pub open spec fn pair_taken(
    before: &Pairer,
    after: &Pairer,
    now_us: u64,
    r: Option<PairedFrames>,
) -> bool {
    let (a, b) = settled(before.waiting1(), before.waiting2(), before.tolerance);
    let dropped = before.waiting1().len() - a.len() + before.waiting2().len() - b.len();
    &&& after.tolerance == before.tolerance
    &&& after.dropped_unpaired == before.dropped_unpaired + dropped
    &&& r is Some <==> a.len() > 0 && b.len() > 0
    &&& r is None ==> {
        &&& after.waiting1() == a
        &&& after.waiting2() == b
        &&& after.pairs_total == before.pairs_total
        &&& after.pair_rate == before.pair_rate
    }
    &&& r matches Some(pair) ==> {
        &&& exists|i: int| #[trigger]
            nearest(b, a[0].seq, i) && pair == paired(a[0], b[i]) && after.waiting2() == b.remove(i)
        &&& pair.seq_delta <= before.tolerance
        &&& after.waiting1() == a.subrange(1, a.len() as int)
        &&& after.pairs_total == before.pairs_total + 1
        &&& after.pair_rate@ == crate::transport::window::window_step(before.pair_rate@, now_us)
    }
}

impl Pairer {
    /// The first link's waiting reports, oldest first.
    pub open spec fn waiting1(&self) -> Seq<StampedReport> {
        self.rx1@
    }

    /// The second link's waiting reports, oldest first.
    pub open spec fn waiting2(&self) -> Seq<StampedReport> {
        self.rx2@
    }

    /// Nothing waits and nothing was counted.
    pub open spec fn unused(&self, tolerance: u32) -> bool {
        &&& self.waiting1() == Seq::<StampedReport>::empty()
        &&& self.waiting2() == Seq::<StampedReport>::empty()
        &&& self.tolerance == tolerance
        &&& self.pairs_total == 0
        &&& self.dropped_unpaired == 0
        &&& self.pair_rate@ == crate::transport::window::window_empty(1_000_000)
    }

    /// Both queues are ordered and bounded.
    pub open spec fn well_formed(&self) -> bool {
        &&& in_seq_order(self.waiting1())
        &&& in_seq_order(self.waiting2())
        &&& self.waiting1().len() <= 64
        &&& self.waiting2().len() <= 64
    }

    /// `tolerance` is, in TX sequence units, the maximum distance between an
    /// RX1 report's seq and an RX2 report's seq for them to be paired. With a
    /// report window of `W` frames, `W / 2` covers the worst phase offset.
    pub fn new(tolerance: u32) -> (p: Self)
        ensures
            p.well_formed(),
            p.unused(tolerance),
    {
        Self {
            rx1: VecDeque::new(),
            rx2: VecDeque::new(),
            tolerance,
            pairs_total: 0,
            dropped_unpaired: 0,
            pair_rate: WindowCounter::new(1_000_000),
        }
    }

    /// Buffers a report from one link (`node::RX1` or `node::RX2`); reports
    /// from other nodes are ignored.
    pub fn push(&mut self, node_id: u8, report: FeatureReport, now_us: u64)
        requires
            old(self).well_formed(),
        ensures
            final(self).well_formed(),
            pushed(old(self), final(self), node_id, report, now_us),
    {
        let stamped = StampedReport { seq: report.seq, report, rx_t_us: now_us };
        if node_id == node::RX1 {
            enqueue(&mut self.rx1, stamped);
        } else if node_id == node::RX2 {
            enqueue(&mut self.rx2, stamped);
        }
    }

    /// Extracts the next time-aligned pair, if one is available.
    ///
    /// Greedy nearest neighbour: the oldest RX1 report is paired with the RX2
    /// report of the smallest distance within tolerance. If the oldest RX2
    /// report is already ahead of the RX1 report by more than the tolerance,
    /// the RX1 report can never pair and is dropped. Symmetric for the other
    /// side.
    pub fn next_pair(&mut self, now_us: u64) -> (r: Option<PairedFrames>)
        requires
            old(self).well_formed(),
            old(self).pairs_total < u64::MAX,
            old(self).dropped_unpaired + old(self).waiting1().len() + old(self).waiting2().len()
                <= u64::MAX,
            old(self).pair_rate@.total < u64::MAX,
        ensures
            final(self).well_formed(),
            pair_taken(old(self), final(self), now_us, r),
    {
        let ghost q1 = self.rx1@;
        let ghost q2 = self.rx2@;
        let tolerance: u32 = self.tolerance;
        loop
            invariant_except_break
                self.well_formed(),
                self.tolerance == tolerance,
                self.pairs_total == old(self).pairs_total,
                self.pair_rate == old(self).pair_rate,
                q1 == old(self).waiting1(),
                q2 == old(self).waiting2(),
                tolerance == old(self).tolerance,
                settled(self.rx1@, self.rx2@, tolerance) == settled(q1, q2, tolerance),
                self.rx1@.len() <= q1.len(),
                self.rx2@.len() <= q2.len(),
                self.dropped_unpaired == old(self).dropped_unpaired + (q1.len() - self.rx1@.len())
                    + (q2.len() - self.rx2@.len()),
                old(self).dropped_unpaired + q1.len() + q2.len() <= u64::MAX,
            ensures
                self.well_formed(),
                self.tolerance == tolerance,
                self.pairs_total == old(self).pairs_total,
                self.pair_rate == old(self).pair_rate,
                tolerance == old(self).tolerance,
                (self.rx1@, self.rx2@) == settled(q1, q2, tolerance),
                self.rx1@.len() > 0,
                self.rx2@.len() > 0,
                self.rx1@.len() <= q1.len(),
                self.rx2@.len() <= q2.len(),
                self.dropped_unpaired == old(self).dropped_unpaired + (q1.len() - self.rx1@.len())
                    + (q2.len() - self.rx2@.len()),
            decreases self.rx1@.len() + self.rx2@.len(),
        {
            if self.rx1.len() == 0 || self.rx2.len() == 0 {
                return None;
            }
            let s1: u32 = self.rx1[0].seq;
            let s2: u32 = self.rx2[0].seq;
            let front_diff: i64 = s2 as i64 - s1 as i64;
            let tol: i64 = tolerance as i64;
            if front_diff > tol {
                let ghost before = self.rx1@;
                let _ = self.rx1.pop_front();
                self.dropped_unpaired += 1;
                proof {
                    assert(self.rx1@ =~= before.subrange(1, before.len() as int));
                    tail_keeps_order(before);
                }
                continue;
            }
            if front_diff < -tol {
                let ghost before = self.rx2@;
                let _ = self.rx2.pop_front();
                self.dropped_unpaired += 1;
                proof {
                    assert(self.rx2@ =~= before.subrange(1, before.len() as int));
                    tail_keeps_order(before);
                }
                continue;
            }
            break;
        }
        let ghost a = self.rx1@;
        let ghost b = self.rx2@;
        let older = self.rx1[0];
        let best: usize = find_nearest(&self.rx2, older.seq);
        let partner = self.rx2[best];
        let _ = self.rx1.pop_front();
        let _ = self.rx2.remove(best);
        proof {
            assert(self.rx1@ =~= a.subrange(1, a.len() as int));
            tail_keeps_order(a);
            assert(self.rx2@ =~= b.remove(best as int));
            removal_keeps_order(b, best as int);
            nearest_partner_is_within_tolerance(q1, q2, tolerance, best as int);
        }
        let later: u32 = if partner.seq >= older.seq {
            partner.seq
        } else {
            older.seq
        };
        let earlier: u32 = if partner.seq >= older.seq {
            older.seq
        } else {
            partner.seq
        };
        self.pairs_total += 1;
        self.pair_rate.push(now_us);
        let pair = PairedFrames {
            seq: later,
            rx1: older.report,
            rx2: partner.report,
            seq_delta: later - earlier,
        };
        assert(nearest(b, a[0].seq, best as int) && pair == paired(a[0], b[best as int]));
        Some(pair)
    }

    /// Number of waiting reports per link.
    pub fn buffered(&self) -> (n: (usize, usize))
        ensures
            n.0 == self.waiting1().len(),
            n.1 == self.waiting2().len(),
    {
        (self.rx1.len(), self.rx2.len())
    }

    /// Forgets all reports and counters.
    pub fn reset(&mut self)
        ensures
            final(self).well_formed(),
            final(self).waiting1() == Seq::<StampedReport>::empty(),
            final(self).waiting2() == Seq::<StampedReport>::empty(),
            final(self).tolerance == old(self).tolerance,
            final(self).pairs_total == 0,
            final(self).dropped_unpaired == 0,
            final(self).pair_rate@ == crate::transport::window::window_empty(
                old(self).pair_rate@.window_us,
            ),
    {
        self.rx1.clear();
        self.rx2.clear();
        self.pairs_total = 0;
        self.dropped_unpaired = 0;
        self.pair_rate.reset();
    }
}

proof fn tail_keeps_order(q: Seq<StampedReport>)
    requires
        in_seq_order(q),
        q.len() > 0,
    ensures
        in_seq_order(q.subrange(1, q.len() as int)),
{
    let t = q.subrange(1, q.len() as int);
    assert forall|i: int, j: int| 0 <= i <= j < t.len() implies t[i].seq <= t[j].seq by {
        assert(q[i + 1].seq <= q[j + 1].seq);
    }
}

proof fn removal_keeps_order(q: Seq<StampedReport>, at: int)
    requires
        in_seq_order(q),
        0 <= at < q.len(),
    ensures
        in_seq_order(q.remove(at)),
{
    let t = q.remove(at);
    assert forall|i: int, j: int| 0 <= i <= j < t.len() implies t[i].seq <= t[j].seq by {
        let oi = if i < at { i } else { i + 1 };
        let oj = if j < at { j } else { j + 1 };
        assert(t[i] == q[oi] && t[j] == q[oj]);
    }
}

/// Puts a report in its place in a link's queue and trims the queue.
fn enqueue(q: &mut VecDeque<StampedReport>, stamped: StampedReport)
    requires
        in_seq_order(old(q)@),
        old(q)@.len() <= 64,
    ensures
        final(q)@ == enqueued(old(q)@, stamped),
        in_seq_order(final(q)@),
        final(q)@.len() <= 64,
{
    let ghost before = q@;
    let mut pos: usize = 0;
    while pos < q.len() && q[pos].seq <= stamped.seq
        invariant
            pos <= q@.len(),
            q@ == before,
            forall|k: int| 0 <= k < pos ==> q@[k].seq <= stamped.seq,
        decreases q@.len() - pos,
    {
        pos += 1;
    }
    proof {
        place_is_found(before, stamped.seq, pos as int);
        enqueued_keeps_order(before, stamped);
    }
    q.insert(pos, stamped);
    if q.len() > MAX_WAITING {
        let ghost longer = q@;
        let _ = q.pop_front();
        assert(q@ =~= longer.subrange(1, longer.len() as int));
    }
}

/// The place of the report nearest to `seq` in an ordered queue.
fn find_nearest(q: &VecDeque<StampedReport>, seq: u32) -> (best: usize)
    requires
        q@.len() > 0,
        in_seq_order(q@),
    ensures
        nearest(q@, seq, best as int),
{
    let mut best: usize = 0;
    let mut best_delta: u32 = distance(q[0].seq, seq);
    let mut i: usize = 1;
    while i < q.len()
        invariant
            1 <= i <= q@.len(),
            best < i,
            in_seq_order(q@),
            best_delta == seq_distance(q@[best as int].seq, seq),
            forall|j: int|
                0 <= j < i ==> best_delta <= seq_distance((#[trigger] q@[j]).seq, seq),
            forall|j: int|
                0 <= j < best ==> best_delta < seq_distance((#[trigger] q@[j]).seq, seq),
        ensures
            best < q@.len(),
            best_delta == seq_distance(q@[best as int].seq, seq),
            forall|j: int|
                0 <= j < q@.len() ==> best_delta <= seq_distance((#[trigger] q@[j]).seq, seq),
            forall|j: int|
                0 <= j < best ==> best_delta < seq_distance((#[trigger] q@[j]).seq, seq),
        decreases q@.len() - i,
    {
        let delta: u32 = distance(q[i].seq, seq);
        if delta < best_delta {
            best_delta = delta;
            best = i;
        } else if q[i].seq > seq {
            // The queue ascends: past this report the distance only grows.
            assert forall|j: int| 0 <= j < q@.len() implies best_delta <= seq_distance(
                (#[trigger] q@[j]).seq,
                seq,
            ) by {
                if j > i {
                    assert(q@[i as int].seq <= q@[j].seq);
                }
            }
            break;
        }
        i += 1;
    }
    best
}

/// Distance of two sequence numbers.
fn distance(a: u32, b: u32) -> (d: u32)
    ensures
        d == seq_distance(a, b),
{
    if a >= b {
        a - b
    } else {
        b - a
    }
}

} // verus!

//! What a capture of a replayed scenario holds.

use vstd::prelude::*;

use crate::protocol::frame_type;
use crate::protocol::payloads::{feature_report_at, parse_feature_report, FeatureReport};
use crate::text::{nat_text, push_dec};
use crate::transport::framer::{frames_in, frames_of, views, FrameView, RadarFrame};
use crate::wire::{get_i16, i16_at};

verus! {

/// One phase observation: 56 phases in thousandths of a radian.
#[derive(Clone, Copy, Debug)]
pub struct PhaseFrame {
    pub seq: u32,
    pub t_us: u64,
    pub phase: [i16; 56],
}

/// Size of a phase payload.
pub const PHASE_SIZE: usize = 112;

/// `p` is the observation in a frame.
pub open spec fn phase_of(f: FrameView, p: PhaseFrame) -> bool {
    &&& p.seq == f.header.seq
    &&& p.t_us == f.header.t_us
    &&& forall|k: int| 0 <= k < 56 ==> #[trigger] p.phase@[k] == i16_at(f.payload, 2 * k)
}

/// Reads the observation in a frame; `None` for too short a payload.
pub fn parse_phase(f: &RadarFrame) -> (r: Option<PhaseFrame>)
    ensures
        match r {
            Some(p) => f.payload@.len() >= 112 && phase_of(f@, p),
            None => f.payload@.len() < 112,
        },
{
    if f.payload.len() < PHASE_SIZE {
        return None;
    }
    let mut phase = [0i16; 56];
    let mut k: usize = 0;
    while k < 56
        invariant
            k <= 56,
            f.payload@.len() >= 112,
            forall|j: int| 0 <= j < k ==> #[trigger] phase@[j] == i16_at(f.payload@, 2 * j),
        decreases 56 - k,
    {
        phase[k] = get_i16(f.payload.as_slice(), 2 * k);
        k += 1;
    }
    Some(PhaseFrame { seq: f.header.seq, t_us: f.header.t_us, phase })
}

/// Observations are in strictly increasing order of their numbers.
pub open spec fn in_order(v: Seq<PhaseFrame>) -> bool {
    forall|i: int, j: int| 0 <= i < j < v.len() ==> (#[trigger] v[i]).seq < (#[trigger] v[j]).seq
}

/// The first observation with the number `seq` is at `i`.
pub open spec fn first_at(v: Seq<PhaseFrame>, seq: u32, i: int) -> bool {
    &&& 0 <= i < v.len()
    &&& v[i].seq == seq
    &&& forall|j: int| 0 <= j < i ==> (#[trigger] v[j]).seq != seq
}

/// `p` is the first observation in `v` with its number.
pub open spec fn is_first(v: Seq<PhaseFrame>, p: PhaseFrame) -> bool {
    exists|i: int| #[trigger] first_at(v, p.seq, i) && v[i] == p
}

/// There is an observation with the number `seq`.
pub open spec fn has_seq(v: Seq<PhaseFrame>, seq: u32) -> bool {
    exists|i: int| 0 <= i < v.len() && (#[trigger] v[i]).seq == seq
}

/// `out` holds, in order, the first observation of each number in `v`.
pub open spec fn sorted_firsts(v: Seq<PhaseFrame>, out: Seq<PhaseFrame>) -> bool {
    &&& in_order(out)
    &&& forall|k: int| 0 <= k < out.len() ==> is_first(v, #[trigger] out[k])
    &&& forall|i: int| 0 <= i < v.len() ==> has_seq(out, (#[trigger] v[i]).seq)
}

proof fn first_stays_first(v: Seq<PhaseFrame>, p: PhaseFrame, q: PhaseFrame)
    requires
        is_first(v, q),
    ensures
        is_first(v.push(p), q),
{
    let i = choose|i: int| #[trigger] first_at(v, q.seq, i) && v[i] == q;
    let w = v.push(p);
    assert forall|j: int| 0 <= j < i implies (#[trigger] w[j]).seq != q.seq by {
        assert(w[j] == v[j]);
    }
    assert(first_at(w, q.seq, i));
}

proof fn known_number_changes_nothing(v: Seq<PhaseFrame>, p: PhaseFrame, out: Seq<PhaseFrame>)
    requires
        sorted_firsts(v, out),
        has_seq(out, p.seq),
    ensures
        sorted_firsts(v.push(p), out),
{
    let w = v.push(p);
    assert forall|k: int| 0 <= k < out.len() implies is_first(w, #[trigger] out[k]) by {
        first_stays_first(v, p, out[k]);
    }
    assert forall|i: int| 0 <= i < w.len() implies has_seq(out, (#[trigger] w[i]).seq) by {
        if i < v.len() {
            assert(w[i] == v[i]);
        }
    }
}

proof fn new_number_takes_its_place(
    v: Seq<PhaseFrame>,
    p: PhaseFrame,
    out: Seq<PhaseFrame>,
    k: int,
)
    requires
        sorted_firsts(v, out),
        0 <= k <= out.len(),
        forall|j: int| 0 <= j < k ==> (#[trigger] out[j]).seq < p.seq,
        forall|j: int| k <= j < out.len() ==> (#[trigger] out[j]).seq > p.seq,
    ensures
        sorted_firsts(v.push(p), out.insert(k, p)),
{
    let w = v.push(p);
    let after = out.insert(k, p);
    assert(is_first(w, p)) by {
        assert forall|j: int| 0 <= j < v.len() implies (#[trigger] w[j]).seq != p.seq by {
            assert(w[j] == v[j]);
            assert(has_seq(out, v[j].seq));
        }
        assert(first_at(w, p.seq, v.len() as int));
    }
    assert forall|j: int| 0 <= j < after.len() implies is_first(w, #[trigger] after[j]) by {
        if j < k {
            assert(after[j] == out[j]);
            first_stays_first(v, p, out[j]);
        } else if j > k {
            assert(after[j] == out[j - 1]);
            first_stays_first(v, p, out[j - 1]);
        }
    }
    assert forall|i: int| 0 <= i < w.len() implies has_seq(after, (#[trigger] w[i]).seq) by {
        if i < v.len() {
            assert(w[i] == v[i]);
            assert(has_seq(out, v[i].seq));
            let m = choose|m: int| 0 <= m < out.len() && (#[trigger] out[m]).seq == v[i].seq;
            if m < k {
                assert(after[m] == out[m]);
            } else {
                assert(after[m + 1] == out[m]);
            }
        } else {
            assert(after[k] == p);
        }
    }
}

/// Adds an observation in its place, unless its number is there already.
fn insert_first(out: &mut Vec<PhaseFrame>, p: PhaseFrame, Ghost(v): Ghost<Seq<PhaseFrame>>)
    requires
        sorted_firsts(v, old(out)@),
    ensures
        sorted_firsts(v.push(p), final(out)@),
{
    let ghost before = out@;
    let n: usize = out.len();
    let mut k: usize = 0;
    while k < n && out[k].seq < p.seq
        invariant
            k <= n,
            n == out@.len(),
            out@ == before,
            forall|j: int| 0 <= j < k ==> (#[trigger] before[j]).seq < p.seq,
        decreases n - k,
    {
        k += 1;
    }
    if k < n && out[k].seq == p.seq {
        proof {
            assert(has_seq(before, p.seq));
            known_number_changes_nothing(v, p, before);
        }
        return;
    }
    out.insert(k, p);
    proof {
        assert forall|j: int| k <= j < before.len() implies (#[trigger] before[j]).seq > p.seq by {
            if k < j {
                assert(before[k as int].seq < before[j].seq);
            }
        }
        new_number_takes_its_place(v, p, before, k as int);
    }
}

/// Sorts observations by their numbers and keeps the first of each.
pub fn sort_phases(v: &[PhaseFrame]) -> (out: Vec<PhaseFrame>)
    ensures
        sorted_firsts(v@, out@),
{
    let mut out: Vec<PhaseFrame> = Vec::new();
    let mut i: usize = 0;
    while i < v.len()
        invariant
            i <= v@.len(),
            sorted_firsts(v@.subrange(0, i as int), out@),
        decreases v@.len() - i,
    {
        let ghost before = v@.subrange(0, i as int);
        insert_first(&mut out, v[i], Ghost(before));
        i += 1;
        assert(v@.subrange(0, i as int) =~= before.push(v@[i - 1]));
    }
    assert(v@.subrange(0, v@.len() as int) =~= v@);
    out
}

/// The phase observations among frames, in the order of the frames.
pub open spec fn phase_count(frames: Seq<FrameView>, kind: u8) -> nat
    decreases frames.len(),
{
    if frames.len() == 0 {
        0
    } else {
        phase_count(frames.drop_last(), kind) + if frames.last().header.kind == kind
            && frames.last().payload.len() >= 112 {
            1nat
        } else {
            0
        }
    }
}

/// The observations `v` are those of the phase frames among `frames`.
pub open spec fn phases_among(frames: Seq<FrameView>, kind: u8, v: Seq<PhaseFrame>) -> bool {
    &&& v.len() == phase_count(frames, kind)
    &&& forall|i: int|
        0 <= i < frames.len() && (#[trigger] frames[i]).header.kind == kind
            && frames[i].payload.len() >= 112 ==> phase_of(
            frames[i],
            v[phase_count(frames.subrange(0, i), kind) as int],
        )
}

/// The phase observations of a recording, whose frames have the type `kind`,
/// in the order of the recording.
pub fn phases_in(bytes: &[u8], kind: u8) -> (v: Vec<PhaseFrame>)
    ensures
        phases_among(frames_in(bytes@), kind, v@),
{
    let frames = frames_of(bytes);
    let ghost all = frames_in(bytes@);
    let mut v: Vec<PhaseFrame> = Vec::new();
    let mut i: usize = 0;
    while i < frames.len()
        invariant
            i <= frames@.len(),
            all == views(frames@),
            v@.len() == phase_count(all.subrange(0, i as int), kind),
            forall|j: int|
                0 <= j < i && (#[trigger] all[j]).header.kind == kind && all[j].payload.len() >= 112
                    ==> phase_count(all.subrange(0, j), kind) < v@.len() && phase_of(
                    all[j],
                    v@[phase_count(all.subrange(0, j), kind) as int],
                ),
        decreases frames@.len() - i,
    {
        let ghost before = v@;
        assert(all[i as int] == frames@[i as int]@);
        assert(all.subrange(0, i + 1).drop_last() =~= all.subrange(0, i as int));
        assert(all.subrange(0, i + 1).last() == all[i as int]);
        if frames[i].header.kind == kind {
            match parse_phase(&frames[i]) {
                Some(p) => {
                    v.push(p);
                },
                None => {},
            }
        }
        i += 1;
    }
    assert(all.subrange(0, all.len() as int) =~= all);
    v
}

/// The feature reports among frames.
pub open spec fn report_count(frames: Seq<FrameView>) -> nat
    decreases frames.len(),
{
    if frames.len() == 0 {
        0
    } else {
        report_count(frames.drop_last()) + if is_report(frames.last()) {
            1nat
        } else {
            0
        }
    }
}

/// A frame that holds a feature report.
pub open spec fn is_report(f: FrameView) -> bool {
    f.header.kind == frame_type::FEATURE_REPORT && f.payload.len() >= 79
}

/// The feature reports of a recording, in its order.
pub fn reports_in(bytes: &[u8]) -> (v: Vec<FeatureReport>)
    ensures
        v@.len() == report_count(frames_in(bytes@)),
        forall|i: int|
            0 <= i < frames_in(bytes@).len() && is_report(#[trigger] frames_in(bytes@)[i])
                ==> feature_report_at(
                frames_in(bytes@)[i].payload,
                v@[report_count(frames_in(bytes@).subrange(0, i)) as int],
            ),
{
    let frames = frames_of(bytes);
    let ghost all = frames_in(bytes@);
    let mut v: Vec<FeatureReport> = Vec::new();
    let mut i: usize = 0;
    while i < frames.len()
        invariant
            i <= frames@.len(),
            all == views(frames@),
            v@.len() == report_count(all.subrange(0, i as int)),
            forall|j: int|
                0 <= j < i && is_report(#[trigger] all[j]) ==> report_count(all.subrange(0, j))
                    < v@.len() && feature_report_at(
                    all[j].payload,
                    v@[report_count(all.subrange(0, j)) as int],
                ),
        decreases frames@.len() - i,
    {
        assert(all[i as int] == frames@[i as int]@);
        assert(all.subrange(0, i + 1).drop_last() =~= all.subrange(0, i as int));
        assert(all.subrange(0, i + 1).last() == all[i as int]);
        if frames[i].header.kind == frame_type::FEATURE_REPORT {
            match parse_feature_report(frames[i].payload.as_slice()) {
                Some(r) => {
                    v.push(r);
                },
                None => {},
            }
        }
        i += 1;
    }
    assert(all.subrange(0, all.len() as int) =~= all);
    v
}

/// The time of observation `i` on the frame grid that starts with the first.
pub open spec fn grid_time(v: Seq<PhaseFrame>, rate_hz: u32, i: int) -> int {
    v[0].t_us + (v[i].seq - v[0].seq) * 1_000_000 / (rate_hz as int)
}

/// The time stamps of an ideal capture: those of the frame grid.
pub open spec fn restamped(v: Seq<PhaseFrame>, rate_hz: u32) -> Seq<u64> {
    Seq::new(v.len(), |i: int| grid_time(v, rate_hz, i) as u64)
}

/// Replaces the time stamps of a sorted capture by those of the frame grid.
pub fn restamp(v: &mut Vec<PhaseFrame>, rate_hz: u32)
    requires
        rate_hz > 0,
        in_order(old(v)@),
        forall|i: int|
            0 <= i < old(v)@.len() ==> #[trigger] grid_time(old(v)@, rate_hz, i) <= u64::MAX,
    ensures
        final(v)@.len() == old(v)@.len(),
        forall|i: int|
            0 <= i < old(v)@.len() ==> #[trigger] final(v)@[i] == (PhaseFrame {
                t_us: restamped(old(v)@, rate_hz)[i],
                ..old(v)@[i]
            }),
{
    let n: usize = v.len();
    if n == 0 {
        return;
    }
    let ghost before = v@;
    let first_us: u64 = v[0].t_us;
    let first_seq: u32 = v[0].seq;
    let mut i: usize = 0;
    while i < n
        invariant
            n == v@.len(),
            n == before.len(),
            n > 0,
            i <= n,
            rate_hz > 0,
            in_order(before),
            first_us == before[0].t_us,
            first_seq == before[0].seq,
            forall|j: int| 0 <= j < n ==> #[trigger] grid_time(before, rate_hz, j) <= u64::MAX,
            forall|j: int|
                0 <= j < i ==> #[trigger] v@[j] == (PhaseFrame {
                    t_us: restamped(before, rate_hz)[j],
                    ..before[j]
                }),
            forall|j: int| i <= j < n ==> #[trigger] v@[j] == before[j],
        decreases n - i,
    {
        let p = v[i];
        proof {
            if i > 0 {
                assert(before[0].seq < before[i as int].seq);
            }
            assert(grid_time(before, rate_hz, i as int) <= u64::MAX);
            let (d, r) = ((p.seq - first_seq) * 1_000_000, rate_hz as int);
            assert(0 <= d / r <= d) by (nonlinear_arith)
                requires
                    0 <= d,
                    r > 0,
            ;
        }
        let steps: u64 = (p.seq - first_seq) as u64 * 1_000_000 / rate_hz as u64;
        v[i] = PhaseFrame { seq: p.seq, t_us: first_us + steps, phase: p.phase };
        i += 1;
    }
}

/// Too few observations to analyze.
#[derive(Clone, Copy, Debug, PartialEq, Eq, Structural)]
pub struct TooFew(pub usize);

impl TooFew {
    /// The message for the user.
    pub fn text(&self) -> (s: String)
        ensures
            s@ == "capture yielded only "@ + nat_text(self.0 as nat)
                + " CSI_PHASE frames — nothing to analyze"@,
    {
        let mut s = "capture yielded only ".to_owned();
        push_dec(&mut s, self.0 as u64);
        s.append(" CSI_PHASE frames — nothing to analyze");
        s
    }
}

/// Counts and intervals of a capture.
#[derive(Debug)]
pub struct Timing {
    pub n: usize,
    pub first_seq: u32,
    pub last_seq: u32,
    pub duration_us: u64,
    /// Numbers from the first to the last.
    pub expected: u64,
    /// Intervals, in microseconds, between observations with adjacent numbers.
    pub intervals: Vec<u64>,
}

/// Observation `i` is no earlier than the one before it, if their numbers are
/// adjacent.
pub open spec fn step_is_forward(v: Seq<PhaseFrame>, i: int) -> bool {
    v[i].seq == v[i - 1].seq + 1 ==> v[i - 1].t_us <= v[i].t_us
}

/// Neither the capture nor a step between adjacent numbers runs backwards.
pub open spec fn times_in_order(v: Seq<PhaseFrame>) -> bool {
    &&& v.len() > 0 ==> v[0].t_us <= v.last().t_us
    &&& forall|i: int| 0 < i < v.len() ==> #[trigger] step_is_forward(v, i)
}

/// The intervals between observations with adjacent numbers.
pub open spec fn intervals_of(v: Seq<PhaseFrame>) -> Seq<u64>
    decreases v.len(),
{
    if v.len() < 2 {
        Seq::empty()
    } else {
        let (p, c) = (v[v.len() - 2], v.last());
        if c.seq == p.seq + 1 {
            intervals_of(v.drop_last()).push((c.t_us - p.t_us) as u64)
        } else {
            intervals_of(v.drop_last())
        }
    }
}

/// Counts and intervals of a sorted capture.
pub fn timing(v: &[PhaseFrame]) -> (r: Result<Timing, TooFew>)
    requires
        in_order(v@),
        times_in_order(v@),
    ensures
        match r {
            Ok(t) => {
                &&& v@.len() >= 2
                &&& t.n == v@.len()
                &&& t.first_seq == v@[0].seq
                &&& t.last_seq == v@.last().seq
                &&& t.duration_us == v@.last().t_us - v@[0].t_us
                &&& t.expected == t.last_seq - t.first_seq + 1
                &&& t.n <= t.expected
                &&& t.intervals@ == intervals_of(v@)
            },
            Err(e) => v@.len() < 2 && e.0 == v@.len(),
        },
{
    let n: usize = v.len();
    if n < 2 {
        return Err(TooFew(n));
    }
    proof {
        order_spreads(v@, n - 1);
    }
    let mut intervals: Vec<u64> = Vec::new();
    let mut i: usize = 1;
    assert(v@.subrange(0, 1).len() < 2);
    while i < n
        invariant
            1 <= i <= n,
            n == v@.len(),
            in_order(v@),
            times_in_order(v@),
            intervals@ == intervals_of(v@.subrange(0, i as int)),
        decreases n - i,
    {
        let ghost part = v@.subrange(0, i + 1);
        assert(part.drop_last() =~= v@.subrange(0, i as int));
        assert(part[part.len() - 2] == v@[i - 1] && part.last() == v@[i as int]);
        assert(v@[i - 1].seq < v@[i as int].seq);
        assert(step_is_forward(v@, i as int));
        if v[i].seq - v[i - 1].seq == 1 {
            intervals.push(v[i].t_us - v[i - 1].t_us);
        }
        i += 1;
    }
    assert(v@.subrange(0, n as int) =~= v@);
    Ok(
        Timing {
            n,
            first_seq: v[0].seq,
            last_seq: v[n - 1].seq,
            duration_us: v[n - 1].t_us - v[0].t_us,
            expected: (v[n - 1].seq - v[0].seq) as u64 + 1,
            intervals,
        },
    )
}

/// On the frame grid of a rate that divides a second, adjacent observations
/// are exactly one period apart.
pub proof fn grid_has_no_jitter(v: Seq<PhaseFrame>, rate_hz: u32, i: int)
    requires
        rate_hz > 0,
        1_000_000int % (rate_hz as int) == 0,
        in_order(v),
        0 < i < v.len(),
        v[i].seq == v[i - 1].seq + 1,
        grid_time(v, rate_hz, i) <= u64::MAX,
    ensures
        restamped(v, rate_hz)[i] - restamped(v, rate_hz)[i - 1] == 1_000_000int / (rate_hz as int),
{
    let r = rate_hz as int;
    let q = 1_000_000int / r;
    let (a, b) = (v[i - 1].seq - v[0].seq, v[i].seq - v[0].seq);
    if i > 1 {
        assert(v[0].seq < v[i - 1].seq);
    }
    assert(v[0].seq < v[i].seq);
    assert(1_000_000 == q * r) by (nonlinear_arith)
        requires
            1_000_000int % r == 0,
            r > 0,
            q == 1_000_000int / r,
    ;
    grid_step(a, q, r);
    grid_step(b, q, r);
    assert(b * q == a * q + q) by (nonlinear_arith)
        requires
            b == a + 1,
    ;
    assert(0 <= q <= 1_000_000) by (nonlinear_arith)
        requires
            q == 1_000_000int / r,
            r > 0,
    ;
    assert(0 <= a * q) by (nonlinear_arith)
        requires
            0 <= a,
            0 <= q,
    ;
}

proof fn grid_step(a: int, q: int, r: int)
    requires
        r > 0,
        1_000_000 == q * r,
    ensures
        a * 1_000_000 / r == a * q,
{
    assert(a * 1_000_000 == (a * q) * r) by (nonlinear_arith)
        requires
            1_000_000 == q * r,
    ;
    vstd::arithmetic::div_mod::lemma_div_multiples_vanish(a * q, r);
    assert((a * q) * r == r * (a * q)) by (nonlinear_arith);
}

/// Length of a slope-fit window.
pub const SLOPE_WINDOW: usize = 64;

/// Where the slope-fit windows of a trace start: one after the other, each of
/// 64 points, or of the whole trace where it is shorter.
pub fn slope_windows(n: usize) -> (w: (usize, Vec<usize>))
    requires
        n > 0,
    ensures
        w.0 == (if n < 64 {
            n as int
        } else {
            64
        }),
        w.1@.len() == n / w.0,
        forall|i: int| 0 <= i < w.1@.len() ==> #[trigger] w.1@[i] == i * w.0,
        forall|i: int| 0 <= i < w.1@.len() ==> #[trigger] w.1@[i] + w.0 <= n,
{
    let win: usize = if n < SLOPE_WINDOW {
        n
    } else {
        SLOPE_WINDOW
    };
    let mut starts: Vec<usize> = Vec::new();
    let mut start: usize = 0;
    while n - start >= win
        invariant
            start <= n,
            0 < win <= 64,
            start == starts@.len() * win,
            forall|i: int| 0 <= i < starts@.len() ==> #[trigger] starts@[i] == i * win,
            forall|i: int| 0 <= i < starts@.len() ==> #[trigger] starts@[i] + win <= n,
        decreases n - start,
    {
        let ghost k = starts@.len() as int;
        assert((k + 1) * win == k * win + win) by (nonlinear_arith);
        starts.push(start);
        start += win;
    }
    proof {
        let (k, m, q) = (starts@.len() as int, n as int, win as int);
        vstd::arithmetic::div_mod::lemma_fundamental_div_mod_converse(m, q, k, m - k * q);
    }
    (win, starts)
}

proof fn order_spreads(v: Seq<PhaseFrame>, k: int)
    requires
        in_order(v),
        0 <= k < v.len(),
    ensures
        v[k].seq >= v[0].seq + k,
    decreases k,
{
    if k > 0 {
        order_spreads(v, k - 1);
        assert(v[k - 1].seq < v[k].seq);
    }
}

} // verus!

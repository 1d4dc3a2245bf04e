//! Replaying a captured stream with its original timing.

use vstd::prelude::*;

use crate::capture::{Event, EventView};
use crate::wire::put_slice;

verus! {

/// The validated frames of a capture: when each was sent, and its bytes.
pub open spec fn replayable(events: Seq<EventView>) -> Seq<(u64, Seq<u8>)>
    decreases events.len(),
{
    if events.len() == 0 {
        Seq::empty()
    } else {
        let front = replayable(events.drop_last());
        match events.last() {
            EventView::Frame { hdr, raw, .. } => front.push((hdr.t_us, raw)),
            _ => front,
        }
    }
}

/// Only intact frames are replayed, each with its own time and bytes, in the
/// order of the capture.
pub proof fn replay_takes_the_frames_in_order(a: Seq<EventView>, b: Seq<EventView>, e: EventView)
    ensures
        replayable(a + b) == replayable(a) + replayable(b),
        e is Frame ==> replayable(seq![e]) == seq![(e->Frame_hdr.t_us, e->raw)],
        !(e is Frame) ==> replayable(seq![e]).len() == 0,
    decreases b.len(),
{
    assert(seq![e].drop_last() =~= Seq::<EventView>::empty());
    reveal_with_fuel(replayable, 2);
    if e is Frame {
        assert(replayable(seq![e]) =~= seq![(e->Frame_hdr.t_us, e->raw)]);
    }
    if b.len() == 0 {
        assert(a + b =~= a);
        assert(replayable(a) + replayable(b) =~= replayable(a));
    } else {
        assert((a + b).drop_last() =~= a + b.drop_last());
        replay_takes_the_frames_in_order(a, b.drop_last(), e);
        assert(replayable(a + b) =~= replayable(a) + replayable(b));
    }
}

/// The frames to send, as times and byte strings.
pub open spec fn frame_views(frames: Seq<(u64, Vec<u8>)>) -> Seq<(u64, Seq<u8>)> {
    frames.map_values(|f: (u64, Vec<u8>)| (f.0, f.1@))
}

/// Takes the validated frames out of a scan, with the number of corrupt or
/// truncated ones left out.
pub fn intact_frames(events: &Vec<Event<'_>>) -> (r: (Vec<(u64, Vec<u8>)>, u64))
    ensures
        frame_views(r.0@) == replayable(crate::capture::views(events@)),
        r.1 == events@.len() - r.0@.len(),
{
    let mut frames: Vec<(u64, Vec<u8>)> = Vec::new();
    let mut bad: u64 = 0;
    let ghost all = crate::capture::views(events@);
    let mut i: usize = 0;
    assert(frame_views(frames@) =~= replayable(all.take(0)));
    while i < events.len()
        invariant
            i <= events@.len(),
            all == crate::capture::views(events@),
            frame_views(frames@) == replayable(all.take(i as int)),
            bad + frames@.len() == i,
        decreases events@.len() - i,
    {
        assert(all.take(i + 1).drop_last() =~= all.take(i as int));
        assert(all[i as int] == events@[i as int]@);
        let ghost before = frames@;
        match &events[i] {
            Event::Frame { hdr, raw, .. } => {
                let mut owned: Vec<u8> = Vec::new();
                put_slice(&mut owned, *raw);
                assert(owned@ =~= raw@);
                frames.push((hdr.t_us, owned));
                assert(frame_views(frames@) =~= frame_views(before).push((hdr.t_us, raw@)));
            },
            Event::BadFrame { .. } => {
                bad += 1;
            },
            Event::Truncated { .. } => {
                bad += 1;
            },
        }
        i += 1;
    }
    assert(all.take(i as int) =~= all);
    (frames, bad)
}

/// Time from the first to the last frame; 0 if the last one is earlier.
pub fn span_us(frames: &Vec<(u64, Vec<u8>)>) -> (span: u64)
    ensures
        span == if frames@.len() == 0 || frames@.last().0 < frames@[0].0 {
            0
        } else {
            frames@.last().0 - frames@[0].0
        },
{
    if frames.len() == 0 {
        return 0;
    }
    frames[frames.len() - 1].0.saturating_sub(frames[0].0)
}

/// When a frame is due, counted from the start of the replay.
pub open spec fn due(t_us: u64, first_t: u64, loop_offset: u64) -> int {
    let rel = if t_us >= first_t { t_us - first_t } else { 0 };
    if rel + loop_offset > u64::MAX {
        u64::MAX as int
    } else {
        rel + loop_offset
    }
}

/// A replay keeps the recorded spacing: frames are due as far apart as they
/// were recorded, the first at once, and a later pass only shifts them.
pub proof fn replay_keeps_the_spacing(t_us: u64, u_us: u64, first_t: u64, offset: u64)
    requires
        first_t <= t_us <= u_us,
        u_us - first_t + offset <= u64::MAX,
    ensures
        due(u_us, first_t, offset) - due(t_us, first_t, offset) == u_us - t_us,
        due(first_t, first_t, 0) == 0,
        due(t_us, first_t, offset) == due(t_us, first_t, 0) + offset,
{
}

/// When a frame is due, counted from the start of the replay, in microseconds.
/// `loop_offset` is the time that earlier passes took.
pub fn due_us(t_us: u64, first_t: u64, loop_offset: u64) -> (d: u64)
    ensures
        d == due(t_us, first_t, loop_offset),
{
    t_us.saturating_sub(first_t).saturating_add(loop_offset)
}

/// The offset of the next pass.
pub fn next_loop_offset(loop_offset: u64, span: u64) -> (o: u64)
    ensures
        o == (loop_offset + span) % 0x1_0000_0000_0000_0000,
{
    loop_offset.wrapping_add(span)
}

/// Due times never run backwards, within a pass or from one pass to the next,
/// as long as the captured times do not and the offset does not wrap.
pub proof fn replay_time_is_monotonic(times: Seq<u64>, pass: nat, i: int, next_pass: nat, j: int)
    requires
        crate::transport::window::non_decreasing(times),
        0 <= i < times.len(),
        0 <= j < times.len(),
        pass < next_pass || pass == next_pass && i <= j,
        next_pass * (times.last() - times[0]) <= u64::MAX,
    ensures
        due(times[i], times[0], (pass * (times.last() - times[0])) as u64) <= due(
            times[j],
            times[0],
            (next_pass * (times.last() - times[0])) as u64,
        ),
{
    let span = times.last() - times[0];
    assert(times[0] <= times[i] && times[i] <= times.last());
    assert(times[0] <= times[j]);
    assert(pass * span <= next_pass * span) by (nonlinear_arith)
        requires
            pass <= next_pass,
            span >= 0,
    ;
    assert(0 <= pass * span) by (nonlinear_arith)
        requires
            span >= 0,
    ;
    if pass < next_pass {
        assert(pass * span + span <= next_pass * span) by (nonlinear_arith)
            requires
                pass + 1 <= next_pass,
                span >= 0,
        ;
    }
}

} // verus!

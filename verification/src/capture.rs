//! Scanning of captured byte streams.
//!
//! A capture may hold frames back to back, with arbitrary gaps between them,
//! or end in the middle of one. [`scan`] looks for the frame magic and skips a
//! corrupt frame by its claimed length.

use vstd::prelude::*;

use crate::protocol::{
    decode_header, frame_bytes, header_at, intact, parse, payload_at, sealed, Header, HEADER_SIZE,
    MAGIC, VERSION,
};
use crate::wire::{get_u32, u32_at};

verus! {

/// Upper bound on a plausible payload length: a larger one marks a false magic
/// hit inside another frame's payload.
pub const MAX_SANE_PAYLOAD: usize = 4096;

/// Why a frame with the right magic was refused.
#[derive(Clone, Copy, Debug, PartialEq, Eq, Structural)]
pub enum BadReason {
    Version,
    Crc,
}

/// The words for a reason.
pub open spec fn reason_text(r: BadReason) -> Seq<char> {
    match r {
        BadReason::Version => "version mismatch"@,
        BadReason::Crc => "crc failure"@,
    }
}

impl BadReason {
    pub fn as_str(&self) -> (s: &'static str)
        ensures
            s@ == reason_text(*self),
    {
        match self {
            BadReason::Version => "version mismatch",
            BadReason::Crc => "crc failure",
        }
    }
}

/// One item found while scanning a captured stream.
pub enum Event<'a> {
    /// A validated frame (magic, version and CRC all good) and its bytes.
    Frame { offset: usize, hdr: Header, payload: &'a [u8], raw: &'a [u8] },
    /// The magic matched but the frame failed validation.
    BadFrame { offset: usize, hdr: Header, reason: BadReason },
    /// The stream ended in the middle of a frame.
    Truncated { offset: usize },
}

/// An event with byte strings in place of slices.
pub enum EventView {
    Frame { offset: int, hdr: Header, payload: Seq<u8>, raw: Seq<u8> },
    BadFrame { offset: int, hdr: Header, reason: BadReason },
    Truncated { offset: int },
}

impl<'a> View for Event<'a> {
    type V = EventView;

    open spec fn view(&self) -> EventView {
        match *self {
            Event::Frame { offset, hdr, payload, raw } => EventView::Frame {
                offset: offset as int,
                hdr,
                payload: payload@,
                raw: raw@,
            },
            Event::BadFrame { offset, hdr, reason } => EventView::BadFrame {
                offset: offset as int,
                hdr,
                reason,
            },
            Event::Truncated { offset } => EventView::Truncated { offset: offset as int },
        }
    }
}

impl EventView {
    /// Where in the stream the event was found.
    pub open spec fn at(self) -> int {
        match self {
            EventView::Frame { offset, .. } => offset,
            EventView::BadFrame { offset, .. } => offset,
            EventView::Truncated { offset } => offset,
        }
    }
}

/// `b` is found behind the whole of `a`, and `a` does not end the scan.
pub open spec fn precedes(a: EventView, b: EventView) -> bool {
    match a {
        EventView::Frame { offset, raw, .. } => raw.len() >= 24 && offset + raw.len() <= b.at(),
        EventView::BadFrame { offset, hdr, .. } => offset + 24 + hdr.payload_len <= b.at(),
        EventView::Truncated { .. } => false,
    }
}

/// The views of a list of events.
pub open spec fn views(events: Seq<Event<'_>>) -> Seq<EventView> {
    events.map_values(|e: Event<'_>| e@)
}

/// The next place at or after `pos` where the magic stands.
pub open spec fn next_magic(buf: Seq<u8>, pos: int) -> Option<int>
    decreases buf.len() - pos,
{
    if pos + 4 > buf.len() {
        None
    } else if u32_at(buf, pos) == MAGIC {
        Some(pos)
    } else {
        next_magic(buf, pos + 1)
    }
}

/// What a magic at `start` turns out to be, and where the scan goes on.
#[verifier::opaque]
pub open spec fn hit(buf: Seq<u8>, start: int) -> (Seq<EventView>, Option<int>) {
    let rest = buf.skip(start);
    let hdr = header_at(rest);
    let total = 24 + hdr.payload_len;
    if rest.len() < 24 {
        (seq![EventView::Truncated { offset: start }], None)
    } else if hdr.payload_len > 4096 {
        (Seq::empty(), Some(start + 1))
    } else if rest.len() < total {
        (seq![EventView::Truncated { offset: start }], None)
    } else if intact(rest) {
        (
            seq![
                EventView::Frame {
                    offset: start,
                    hdr,
                    payload: payload_at(rest),
                    raw: buf.subrange(start, start + total),
                },
            ],
            Some(start + total),
        )
    } else {
        (
            seq![
                EventView::BadFrame {
                    offset: start,
                    hdr,
                    reason: if hdr.version != VERSION { BadReason::Version } else { BadReason::Crc },
                },
            ],
            Some(start + total),
        )
    }
}

/// What a magic number leads to: a frame exactly where an intact one of
/// plausible length stands; a bad frame where a complete one is not intact,
/// blamed on its version if that is another; a truncation where the stream
/// ends first; and nothing where the length is absurd.
pub proof fn a_magic_leads_to_what_stands_there(buf: Seq<u8>, start: int)
    requires
        0 <= start <= buf.len(),
    ensures
        ({
            let rest = buf.skip(start);
            let events = hit(buf, start).0;
            let next = hit(buf, start).1;
            let h = header_at(rest);
            let headed = rest.len() >= 24;
            let plausible = headed && h.payload_len <= 4096;
            let complete = plausible && rest.len() >= 24 + h.payload_len;
            &&& events.len() <= 1
            &&& (events.len() == 0) == (headed && h.payload_len > 4096)
            &&& (events.len() == 1 && events[0] is Frame) == (complete && intact(rest))
            &&& (events.len() == 1 && events[0] is BadFrame) == (complete && !intact(rest))
            &&& (events.len() == 1 && events[0] is Truncated) == (!headed || (plausible
                && !complete))
            &&& events.len() == 1 ==> events[0].at() == start
            &&& events.len() == 1 && events[0] is Frame ==> {
                &&& events[0]->Frame_hdr == h
                &&& events[0]->payload == rest.subrange(24, 24 + h.payload_len)
                &&& events[0]->raw == rest.subrange(0, 24 + h.payload_len)
                &&& next == Some(start + 24 + h.payload_len)
            }
            &&& events.len() == 1 && events[0] is BadFrame ==> {
                &&& events[0]->BadFrame_hdr == h
                &&& (events[0]->reason == BadReason::Version) == (h.version != 1)
                &&& next == Some(start + 24 + h.payload_len)
            }
            &&& events.len() == 1 && events[0] is Truncated ==> next is None
            &&& events.len() == 0 ==> next == Some(start + 1)
        }),
{
    reveal(hit);
    let rest = buf.skip(start);
    let n = 24 + header_at(rest).payload_len;
    let events = hit(buf, start).0;
    if rest.len() < 24 {
        assert(events == seq![EventView::Truncated { offset: start }]);
    } else if n > 24 + 4096 {
        assert(events == Seq::<EventView>::empty());
    } else if rest.len() < n {
        assert(events == seq![EventView::Truncated { offset: start }]);
    } else {
        assert(buf.subrange(start, start + n) =~= rest.subrange(0, n));
        assert(events.len() == 1);
    }
}

/// The events that scanning from `pos` on finds.
pub open spec fn events_from(buf: Seq<u8>, pos: int) -> Seq<EventView>
    decreases buf.len() - pos,
{
    match next_magic(buf, pos) {
        None => Seq::empty(),
        Some(start) => match hit(buf, start).1 {
            Some(next) if pos < next <= buf.len() => hit(buf, start).0 + events_from(buf, next),
            _ => hit(buf, start).0,
        },
    }
}

/// A magic hit yields at most one event, which stands at the magic; the scan
/// goes on behind the magic, and behind the whole of a reported frame.
pub proof fn hit_moves_on(buf: Seq<u8>, start: int)
    requires
        0 <= start,
        start + 4 <= buf.len(),
    ensures
        hit(buf, start).0.len() <= 1,
        hit(buf, start).0.len() == 1 ==> hit(buf, start).0[0].at() == start,
        hit(buf, start).1 matches Some(next) ==> {
            &&& start < next <= buf.len()
            &&& hit(buf, start).0.len() == 1 ==> match hit(buf, start).0[0] {
                EventView::Frame { raw, .. } => raw.len() >= 24 && start + raw.len() == next,
                EventView::BadFrame { hdr, .. } => start + 24 + hdr.payload_len == next,
                EventView::Truncated { .. } => false,
            }
        },
{
    reveal(hit);
}

/// The next magic lies inside the stream, at or after the place asked about,
/// and none stands before it.
pub proof fn magic_is_ahead(buf: Seq<u8>, pos: int)
    ensures
        next_magic(buf, pos) matches Some(start) ==> {
            &&& pos <= start
            &&& start + 4 <= buf.len()
            &&& u32_at(buf, start) == MAGIC
            &&& forall|k: int| pos <= k < start ==> u32_at(buf, k) != MAGIC
        },
        next_magic(buf, pos) is None ==> forall|k: int|
            pos <= k && k + 4 <= buf.len() ==> u32_at(buf, k) != MAGIC,
    decreases buf.len() - pos,
{
    if pos + 4 <= buf.len() && u32_at(buf, pos) != MAGIC {
        magic_is_ahead(buf, pos + 1);
    }
}

/// Events come in the order of the stream, and no event starts inside a frame
/// already reported.
pub proof fn events_are_in_order(buf: Seq<u8>, pos: int)
    requires
        0 <= pos,
    ensures
        forall|i: int|
            #![trigger events_from(buf, pos)[i]]
            0 <= i < events_from(buf, pos).len() ==> pos <= events_from(buf, pos)[i].at(),
        forall|i: int, j: int|
            #![trigger events_from(buf, pos)[i], events_from(buf, pos)[j]]
            0 <= i < j < events_from(buf, pos).len() ==> precedes(
                events_from(buf, pos)[i],
                events_from(buf, pos)[j],
            ),
    decreases buf.len() - pos,
{
    magic_is_ahead(buf, pos);
    match next_magic(buf, pos) {
        None => {},
        Some(start) => {
            hit_moves_on(buf, start);
            let first = hit(buf, start).0;
            let all = events_from(buf, pos);
            match hit(buf, start).1 {
                None => {
                    assert(all == first);
                },
                Some(next) => {
                    events_are_in_order(buf, next);
                    let later = events_from(buf, next);
                    assert(all == first + later);
                    let n = first.len() as int;
                    assert forall|i: int| #![trigger all[i]] 0 <= i < all.len() implies pos
                        <= all[i].at() by {
                        if i >= n {
                            assert(all[i] == later[i - n]);
                        }
                    }
                    assert forall|i: int, j: int|
                        #![trigger all[i], all[j]]
                        0 <= i < j < all.len() implies precedes(all[i], all[j]) by {
                        assert(all[j] == later[j - n]);
                        if i >= n {
                            assert(all[i] == later[i - n]);
                        }
                    }
                },
            }
        },
    }
}

/// An intact frame that stands where the scan looks is reported, whatever
/// precedes or follows it, and the scan goes on right behind it.
pub proof fn frame_in_place_is_reported(
    before: Seq<u8>,
    h: Header,
    payload: Seq<u8>,
    after: Seq<u8>,
)
    requires
        h.magic == MAGIC,
        h.version == VERSION,
        payload.len() <= 4096,
    ensures
        ({
            let buf = before + frame_bytes(h, payload) + after;
            let at = before.len() as int;
            events_from(buf, at) == seq![
                EventView::Frame {
                    offset: at,
                    hdr: sealed(h, payload),
                    payload,
                    raw: frame_bytes(h, payload),
                },
            ] + events_from(buf, at + 24 + payload.len())
        }),
{
    let buf = before + frame_bytes(h, payload) + after;
    let at = before.len() as int;
    let rest = buf.skip(at);
    crate::protocol::frame_round_trip(h, payload, after);
    crate::protocol::header_round_trip(sealed(h, payload), Seq::empty());
    assert(rest =~= frame_bytes(h, payload) + after);
    assert(u32_at(buf, at) == u32_at(rest, 0)) by {
        assert(buf[at] == rest[0] && buf[at + 1] == rest[1] && buf[at + 2] == rest[2] && buf[at
            + 3] == rest[3]);
    }
    assert(next_magic(buf, at) == Some(at));
    assert(header_at(rest) == sealed(h, payload));
    assert(buf.subrange(at, at + 24 + payload.len()) =~= frame_bytes(h, payload));
    reveal(hit);
}

/// The next place at or after `pos` where the magic stands.
fn find_magic(buf: &[u8], pos: usize) -> (r: Option<usize>)
    requires
        pos <= buf@.len(),
    ensures
        match r {
            Some(start) => next_magic(buf@, pos as int) == Some(start as int),
            None => next_magic(buf@, pos as int) is None,
        },
{
    let mut i: usize = pos;
    while buf.len() - i >= 4
        invariant
            i <= buf@.len(),
            next_magic(buf@, i as int) == next_magic(buf@, pos as int),
        decreases buf@.len() - i,
    {
        if get_u32(buf, i) == MAGIC {
            return Some(i);
        }
        i += 1;
    }
    None
}

/// Scans `buf` for radar frames, tolerating gaps and recovering after corrupt
/// frames by skipping past their claimed length.
pub fn scan(buf: &[u8]) -> (events: Vec<Event<'_>>)
    ensures
        views(events@) == events_from(buf@, 0),
{
    let mut events: Vec<Event<'_>> = Vec::new();
    let mut pos: usize = 0;
    assert(views(events@) =~= Seq::empty());
    loop
        invariant_except_break
            pos <= buf@.len(),
            views(events@) + events_from(buf@, pos as int) == events_from(buf@, 0),
        ensures
            views(events@) == events_from(buf@, 0),
        decreases buf@.len() - pos,
    {
        proof {
            magic_is_ahead(buf@, pos as int);
        }
        let start: usize = match find_magic(buf, pos) {
            Some(s) => s,
            None => {
                assert(views(events@) + Seq::<EventView>::empty() =~= views(events@));
                break;
            },
        };
        let ghost before = views(events@);
        let ghost (found, next) = hit(buf@, start as int);
        proof {
            hit_moves_on(buf@, start as int);
            reveal(hit);
        }
        if buf.len() - start < HEADER_SIZE {
            events.push(Event::Truncated { offset: start });
            assert(views(events@) =~= before + found);
            break;
        }
        let rest = vstd::slice::slice_subrange(buf, start, buf.len());
        assert(rest@ =~= buf@.skip(start as int));
        let hdr = decode_header(rest);
        let plen: usize = hdr.payload_len as usize;
        if plen > MAX_SANE_PAYLOAD {
            // Not at a plausible frame boundary: rescan from the next byte.
            assert(Seq::<EventView>::empty() + events_from(buf@, start + 1) =~= events_from(
                buf@,
                start + 1,
            ));
            pos = start + 1;
            continue;
        }
        let total: usize = HEADER_SIZE + plen;
        if rest.len() < total {
            events.push(Event::Truncated { offset: start });
            assert(views(events@) =~= before + found);
            break;
        }
        match parse(rest) {
            Some((header, payload)) => {
                let raw = vstd::slice::slice_subrange(buf, start, start + total);
                events.push(Event::Frame { offset: start, hdr: header, payload, raw });
            },
            None => {
                let reason = if hdr.version != VERSION {
                    BadReason::Version
                } else {
                    BadReason::Crc
                };
                events.push(Event::BadFrame { offset: start, hdr, reason });
            },
        }
        proof {
            assert(views(events@) =~= before + found);
            assert(before + (found + events_from(buf@, start + total)) =~= before + found
                + events_from(buf@, start + total));
        }
        pos = start + total;
    }
    events
}

} // verus!

//! Byte-stream frame extractor for the wired inter-board UART links.
//!
//! [`crate::protocol::parse`] consumes complete frames; a UART gives a byte
//! stream with no packet boundaries. [`RadarFrameDecoder`] buffers bytes,
//! hunts for the "RDR1" magic, validates the CRC and yields complete frames,
//! resyncing by dropping one byte at a time whenever a bad header or a CRC
//! failure means the stream is out of alignment. Its buffer is bounded.

use vstd::prelude::*;

use crate::protocol::{
    decode_header, frame_bytes, header_at, intact, parse, payload_at, sealed, Header, HEADER_SIZE,
    MAGIC, VERSION,
};
use crate::wire::put_slice;

verus! {

/// Largest frame the link will ever carry (header and largest payload).
pub const MAX_FRAME: usize = 536;

/// Buffer cap: the oldest bytes are dropped when a garbage burst exceeds it.
pub const MAX_BUFFER: usize = 1072;

/// A complete, validated radar frame.
#[derive(Clone, Debug, PartialEq)]
pub struct RadarFrame {
    pub header: Header,
    pub payload: Vec<u8>,
}

/// A frame as a header and a byte string.
pub struct FrameView {
    pub header: Header,
    pub payload: Seq<u8>,
}

impl View for RadarFrame {
    type V = FrameView;

    open spec fn view(&self) -> FrameView {
        FrameView { header: self.header, payload: self.payload@ }
    }
}

impl RadarFrame {
    /// Frame type (one of `frame_type`).
    pub fn kind(&self) -> (k: u8)
        ensures
            k == self@.header.kind,
    {
        self.header.kind
    }

    /// Source node (one of `node`).
    pub fn src(&self) -> (n: u8)
        ensures
            n == self@.header.src_node,
    {
        self.header.src_node
    }

    /// TX measurement sequence this frame relates to.
    pub fn seq(&self) -> (n: u32)
        ensures
            n == self@.header.seq,
    {
        self.header.seq
    }
}

/// A header that the link could carry starts `s`.
pub open spec fn plausible(s: Seq<u8>) -> bool {
    &&& header_at(s).magic == MAGIC
    &&& header_at(s).version == VERSION
    &&& 24 + header_at(s).payload_len <= 536
}

/// The first frame in a byte stream and what follows it: bytes that cannot
/// start a frame are skipped one by one. Without a complete frame, what may
/// still become one is kept.
pub open spec fn hunt(s: Seq<u8>) -> (Option<FrameView>, Seq<u8>)
    decreases s.len(),
{
    if s.len() < 24 {
        (None, s)
    } else if !plausible(s) {
        hunt(s.subrange(1, s.len() as int))
    } else if s.len() < 24 + header_at(s).payload_len {
        (None, s)
    } else if intact(s) {
        (
            Some(FrameView { header: header_at(s), payload: payload_at(s) }),
            s.subrange(24 + header_at(s).payload_len, s.len() as int),
        )
    } else {
        hunt(s.subrange(1, s.len() as int))
    }
}

/// All frames in a byte stream.
pub open spec fn frames_in(s: Seq<u8>) -> Seq<FrameView>
    decreases s.len(),
{
    match hunt(s).0 {
        None => Seq::empty(),
        Some(f) => if hunt(s).1.len() < s.len() {
            seq![f] + frames_in(hunt(s).1)
        } else {
            seq![f]
        },
    }
}

/// Frames as values.
pub open spec fn views(frames: Seq<RadarFrame>) -> Seq<FrameView> {
    frames.map_values(|f: RadarFrame| f@)
}

/// What remains of a byte stream when all frames are taken out.
pub open spec fn residue(s: Seq<u8>) -> Seq<u8>
    decreases s.len(),
{
    match hunt(s).0 {
        None => hunt(s).1,
        Some(_) => if hunt(s).1.len() < s.len() {
            residue(hunt(s).1)
        } else {
            hunt(s).1
        },
    }
}

/// What is kept of a buffer that must not exceed its cap.
pub open spec fn capped(s: Seq<u8>) -> Seq<u8> {
    if s.len() > 1072 {
        s.subrange(s.len() - 1072, s.len() as int)
    } else {
        s
    }
}

/// Bytes fed in pieces are kept as if fed at once: the last ones of all that
/// arrived, never more than the cap.
pub proof fn pieces_are_kept_as_one(s: Seq<u8>, a: Seq<u8>, b: Seq<u8>)
    ensures
        capped(capped(s + a) + b) == capped(s + (a + b)),
        capped(s + (a + b)).len() == if (s + a + b).len() > 1072 {
            1072
        } else {
            (s + a + b).len()
        },
        capped(s + (a + b)) == (s + a + b).skip((s + a + b).len() - capped(s + (a + b)).len()),
{
    assert(s + (a + b) =~= s + a + b);
    assert(capped(capped(s + a) + b) =~= capped(s + a + b));
    assert(capped(s + a + b) =~= (s + a + b).skip((s + a + b).len() - capped(s + a + b).len()));
}

/// Taking a frame shortens the stream; what is kept without one is shorter
/// than the largest frame.
pub proof fn hunt_makes_progress(s: Seq<u8>)
    ensures
        hunt(s).1.len() <= s.len(),
        hunt(s).0 is Some ==> hunt(s).1.len() < s.len(),
        hunt(s).0 is None ==> hunt(s).1.len() < 536,
    decreases s.len(),
{
    if s.len() >= 24 {
        hunt_makes_progress(s.subrange(1, s.len() as int));
    }
}

/// Once all frames are taken out, less than one frame remains. A reader that
/// takes all frames after each piece can therefore feed 512 bytes at a time
/// and never lose one to the buffer cap.
pub proof fn residue_is_short(s: Seq<u8>)
    ensures
        residue(s).len() < 536,
        forall|piece: Seq<u8>| piece.len() <= 512 ==> #[trigger] capped(residue(s) + piece)
            == residue(s) + piece,
    decreases s.len(),
{
    hunt_makes_progress(s);
    if hunt(s).0 is Some {
        residue_is_short(hunt(s).1);
    }
}

/// A frame at the front of the stream comes out first, and the rest stays.
pub proof fn leading_frame_is_found(h: Header, payload: Seq<u8>, rest: Seq<u8>)
    requires
        h.magic == MAGIC,
        h.version == VERSION,
        payload.len() <= 512,
    ensures
        hunt(frame_bytes(h, payload) + rest) == (
            Some(FrameView { header: sealed(h, payload), payload }),
            rest,
        ),
{
    let s = frame_bytes(h, payload) + rest;
    crate::protocol::frame_round_trip(h, payload, rest);
    crate::protocol::header_round_trip(sealed(h, payload), Seq::empty());
    assert(header_at(s) == sealed(h, payload));
    assert(s.subrange(24 + payload.len() as int, s.len() as int) =~= rest);
}

/// Frames written one after the other come out one after the other.
pub proof fn concatenated_frames_are_found(
    h: Header,
    payload: Seq<u8>,
    rest: Seq<u8>,
)
    requires
        h.magic == MAGIC,
        h.version == VERSION,
        payload.len() <= 512,
    ensures
        frames_in(frame_bytes(h, payload) + rest) == seq![
            FrameView { header: sealed(h, payload), payload },
        ] + frames_in(rest),
        residue(frame_bytes(h, payload) + rest) == residue(rest),
{
    leading_frame_is_found(h, payload, rest);
    hunt_makes_progress(frame_bytes(h, payload) + rest);
}

/// No frame starts `s`: its first bytes are no header, or its first frame is
/// complete and broken.
pub open spec fn starts_no_frame(s: Seq<u8>) -> bool {
    !plausible(s) || (s.len() >= 24 + header_at(s).payload_len && !intact(s))
}

/// The decoder recovers from broken frames and other debris: it finds in the
/// stream behind them what it finds in that stream alone, as long as no frame
/// starts inside the debris.
pub proof fn debris_is_skipped(debris: Seq<u8>, s: Seq<u8>)
    requires
        s.len() >= 24,
        forall|i: int|
            0 <= i < debris.len() ==> starts_no_frame(
                #[trigger] (debris + s).skip(i),
            ),
    ensures
        hunt(debris + s) == hunt(s),
    decreases debris.len(),
{
    let t = debris + s;
    if debris.len() == 0 {
        assert(t =~= s);
    } else {
        let d = debris.subrange(1, debris.len() as int);
        assert(t.skip(0) =~= t);
        assert(t.subrange(1, t.len() as int) =~= d + s);
        assert forall|i: int| 0 <= i < d.len() implies starts_no_frame(
            #[trigger] (d + s).skip(i),
        ) by {
            assert((d + s).skip(i) =~= t.skip(i + 1));
        }
        debris_is_skipped(d, s);
    }
}

/// Garbage in front of the stream does no harm, as long as no plausible header
/// starts inside it.
pub proof fn garbage_is_skipped(garbage: Seq<u8>, s: Seq<u8>)
    requires
        s.len() >= 24,
        forall|i: int|
            0 <= i < garbage.len() ==> !plausible(
                #[trigger] (garbage + s).skip(i),
            ),
    ensures
        hunt(garbage + s) == hunt(s),
{
    debris_is_skipped(garbage, s);
}

/// What a header and payload look like does not depend on what follows.
proof fn more_bytes_change_nothing(s: Seq<u8>, more: Seq<u8>)
    requires
        s.len() >= 24,
    ensures
        header_at(s + more) == header_at(s),
        plausible(s + more) == plausible(s),
        s.len() >= 24 + header_at(s).payload_len ==> payload_at(s + more) == payload_at(s),
        s.len() >= 24 + header_at(s).payload_len ==> intact(s + more) == intact(s),
{
    let t = s + more;
    assert(forall|i: int| 0 <= i < s.len() ==> t[i] == s[i]);
    assert(header_at(t) == header_at(s));
    if s.len() >= 24 + header_at(s).payload_len {
        assert(payload_at(t) =~= payload_at(s));
    }
}

/// A frame found stays found when more bytes arrive, and bytes skipped stay
/// skipped.
pub proof fn hunt_ignores_later_bytes(s: Seq<u8>, more: Seq<u8>)
    ensures
        hunt(s).0 is Some ==> hunt(s + more) == (hunt(s).0, hunt(s).1 + more),
        hunt(s).0 is None ==> hunt(s + more) == hunt(hunt(s).1 + more),
    decreases s.len(),
{
    if s.len() >= 24 {
        more_bytes_change_nothing(s, more);
        let tail = s.subrange(1, s.len() as int);
        assert((s + more).subrange(1, (s + more).len() as int) =~= tail + more);
        if !plausible(s) {
            hunt_ignores_later_bytes(tail, more);
        } else if s.len() >= 24 + header_at(s).payload_len {
            let n = 24 + header_at(s).payload_len;
            assert((s + more).subrange(n, (s + more).len() as int) =~= s.subrange(
                n,
                s.len() as int,
            ) + more);
            if !intact(s) {
                hunt_ignores_later_bytes(tail, more);
            }
        }
    }
}

/// However a stream is cut into pieces, the same frames come out: those of the
/// first piece, then those of its residue joined with the rest.
pub proof fn cutting_the_stream_changes_nothing(s: Seq<u8>, more: Seq<u8>)
    ensures
        frames_in(s + more) == frames_in(s) + frames_in(residue(s) + more),
        residue(s + more) == residue(residue(s) + more),
    decreases s.len(),
{
    hunt_makes_progress(s);
    hunt_makes_progress(s + more);
    hunt_ignores_later_bytes(s, more);
    match hunt(s).0 {
        None => {
            assert(frames_in(s) =~= Seq::empty());
            assert(residue(s) == hunt(s).1);
            hunt_makes_progress(hunt(s).1 + more);
            assert(frames_in(s + more) == frames_in(hunt(s).1 + more));
            assert(frames_in(s) + frames_in(residue(s) + more) =~= frames_in(hunt(s).1 + more));
        },
        Some(f) => {
            cutting_the_stream_changes_nothing(hunt(s).1, more);
            assert(frames_in(s + more) =~= seq![f] + frames_in(hunt(s).1 + more));
            assert(frames_in(s) =~= seq![f] + frames_in(hunt(s).1));
            assert(seq![f] + (frames_in(hunt(s).1) + frames_in(residue(s) + more)) =~= (seq![f]
                + frames_in(hunt(s).1)) + frames_in(residue(s) + more));
        },
    }
}

/// Consumes a byte stream and yields aligned [`RadarFrame`]s.
#[derive(Debug)]
pub struct RadarFrameDecoder {
    buf: Vec<u8>,
}

impl View for RadarFrameDecoder {
    type V = Seq<u8>;

    closed spec fn view(&self) -> Seq<u8> {
        self.buf@
    }
}

impl Default for RadarFrameDecoder {
    fn default() -> (d: Self)
        ensures
            d@ == Seq::<u8>::empty(),
    {
        Self { buf: Vec::new() }
    }
}

impl RadarFrameDecoder {
    pub fn new() -> (d: Self)
        ensures
            d@ == Seq::<u8>::empty(),
    {
        Self { buf: Vec::with_capacity(256) }
    }

    /// Appends freshly received bytes. No framing work happens here; call
    /// [`next`](Self::next) to collect complete frames.
    pub fn feed(&mut self, data: &[u8])
        requires
            old(self)@.len() + data@.len() <= usize::MAX,
        ensures
            final(self)@ == capped(old(self)@ + data@),
            final(self)@.len() <= 1072,
    {
        put_slice(&mut self.buf, data);
        if self.buf.len() > MAX_BUFFER {
            let overflow: usize = self.buf.len() - MAX_BUFFER;
            let rest = self.buf.split_off(overflow);
            self.buf = rest;
        }
    }

    /// Pulls the next complete, CRC-valid frame out of the buffer, if any.
    /// Scans forward past garbage and never blocks.
    pub fn next(&mut self) -> (r: Option<RadarFrame>)
        ensures
            r is Some <==> hunt(old(self)@).0 is Some,
            r matches Some(f) ==> hunt(old(self)@).0 == Some(f@),
            final(self)@ == hunt(old(self)@).1,
            final(self)@.len() <= old(self)@.len(),
    {
        let mut start: usize = 0;
        let ghost all = self.buf@;
        proof {
            hunt_makes_progress(all);
            assert(all.subrange(0, all.len() as int) =~= all);
        }
        let mut found: Option<RadarFrame> = None;
        loop
            invariant_except_break
                found is None,
                start <= all.len(),
                self.buf@ == all,
                hunt(all.subrange(start as int, all.len() as int)) == hunt(all),
            ensures
                start <= all.len(),
                self.buf@ == all,
                found is Some <==> hunt(all).0 is Some,
                found matches Some(f) ==> hunt(all).0 == Some(f@),
                all.subrange(start as int, all.len() as int) == hunt(all).1,
            decreases all.len() - start,
        {
            let ghost s = all.subrange(start as int, all.len() as int);
            if self.buf.len() - start < HEADER_SIZE {
                break;
            }
            let window = vstd::slice::slice_subrange(
                self.buf.as_slice(),
                start,
                self.buf.len(),
            );
            assert(window@ =~= s);
            let hdr = decode_header(window);
            let total: usize = HEADER_SIZE + hdr.payload_len as usize;
            if hdr.magic != MAGIC || hdr.version != VERSION || total > MAX_FRAME {
                // Garbage, or a stray byte between frames: drop one byte.
                start += 1;
                assert(s.subrange(1, s.len() as int) =~= all.subrange(
                    start as int,
                    all.len() as int,
                ));
                continue;
            }
            if window.len() < total {
                break;
            }
            match parse(window) {
                Some((header, payload)) => {
                    let mut owned: Vec<u8> = Vec::new();
                    put_slice(&mut owned, payload);
                    assert(owned@ =~= payload@);
                    found = Some(RadarFrame { header, payload: owned });
                    start += total;
                    assert(s.subrange(total as int, s.len() as int) =~= all.subrange(
                        start as int,
                        all.len() as int,
                    ));
                    break;
                },
                None => {
                    // False magic match or corrupted frame: resync by one byte.
                    start += 1;
                    assert(s.subrange(1, s.len() as int) =~= all.subrange(
                        start as int,
                        all.len() as int,
                    ));
                },
            }
        }
        let rest = self.buf.split_off(start);
        self.buf = rest;
        found
    }

    /// Takes all complete frames out of the buffer.
    pub fn drain(&mut self) -> (frames: Vec<RadarFrame>)
        ensures
            views(frames@) == frames_in(old(self)@),
            final(self)@ == residue(old(self)@),
    {
        let ghost all = self@;
        let mut frames: Vec<RadarFrame> = Vec::new();
        assert(views(frames@) =~= Seq::empty());
        assert(views(frames@) + frames_in(self@) =~= frames_in(all));
        loop
            invariant_except_break
                views(frames@) + frames_in(self@) == frames_in(all),
                residue(self@) == residue(all),
            ensures
                views(frames@) == frames_in(all),
                self@ == residue(all),
            decreases self@.len(),
        {
            let ghost before = self@;
            let ghost taken = frames@;
            proof {
                hunt_makes_progress(before);
            }
            match self.next() {
                None => {
                    assert(views(taken) + Seq::empty() =~= views(taken));
                    break;
                },
                Some(f) => {
                    frames.push(f);
                    assert(views(frames@) =~= views(taken).push(f@));
                    assert(views(taken) + (seq![f@] + frames_in(self@)) =~= views(taken).push(f@)
                        + frames_in(self@));
                },
            }
        }
        frames
    }

    /// Number of bytes currently buffered.
    pub fn buffered(&self) -> (n: usize)
        ensures
            n == self@.len(),
    {
        self.buf.len()
    }
}

/// Bytes fed at a time when a whole recording is decoded.
pub const CHUNK: usize = 512;

/// All frames of a recording. It is fed in pieces that the buffer takes whole
/// next to the largest residue, so that no frame is lost between two pieces.
pub fn frames_of(bytes: &[u8]) -> (frames: Vec<RadarFrame>)
    ensures
        views(frames@) == frames_in(bytes@),
{
    let mut dec = RadarFrameDecoder::new();
    let mut frames: Vec<RadarFrame> = Vec::new();
    let mut at: usize = 0;
    let n: usize = bytes.len();
    proof {
        assert(bytes@.subrange(0, 0) =~= Seq::empty());
        assert(views(frames@) =~= frames_in(Seq::<u8>::empty()));
    }
    while at < n
        invariant
            n == bytes@.len(),
            at <= n,
            views(frames@) == frames_in(bytes@.subrange(0, at as int)),
            dec@ == residue(bytes@.subrange(0, at as int)),
        decreases n - at,
    {
        let step: usize = if n - at < CHUNK {
            n - at
        } else {
            CHUNK
        };
        let piece = vstd::slice::slice_subrange(bytes, at, at + step);
        let ghost done = bytes@.subrange(0, at as int);
        proof {
            residue_is_short(done);
            cutting_the_stream_changes_nothing(done, piece@);
            assert(done + piece@ =~= bytes@.subrange(0, at + step));
        }
        dec.feed(piece);
        let mut found = dec.drain();
        let ghost before = frames@;
        let ghost new = found@;
        frames.append(&mut found);
        assert(views(frames@) =~= views(before) + views(new));
        at += step;
    }
    assert(bytes@.subrange(0, n as int) =~= bytes@);
    frames
}

} // verus!

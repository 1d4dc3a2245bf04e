//! Conversation with the coprocessor.
//!
//! [`Link`] decides what to send, what a reply means and when to stop waiting;
//! whoever drives it owns the UART and the clock. Best-effort by design: every
//! outcome short of a proper answer leaves the coprocessor absent.

use vstd::prelude::*;

use crate::protocol::cp;
use crate::protocol::cp::{
    frame_bytes, hello_ack_at, msg_type, status_at, Header, HelloAck, Status, HEADER_SIZE,
    HELLO_ACK_SIZE, MAGIC, MAX_PAYLOAD, STATUS_SIZE, VERSION,
};
use crate::rp2350::framer::{capped, hunt, Frame, FrameDecoder, FrameView};
use crate::rp2350::session::{compatible, SeqCounter};
use crate::text::{nat_text, push_dec};
use crate::wire::{get_u16, get_u32, u16_at, u32_at};

verus! {

/// Default link baud rate: a full payload stays under about 9 ms on the wire.
pub const DEFAULT_BAUD: u32 = 921_600;

/// How long to wait for the answer to HELLO before declaring the coprocessor
/// absent.
pub const DEFAULT_PROBE_TIMEOUT_MS: u64 = 500;

/// Link-level errors. All are recoverable; RADAR-TX treats the link as absent
/// after any of them.
#[derive(Debug, PartialEq, Eq)]
pub enum CoError {
    /// No coprocessor answered, or the link is not usable.
    NotPresent,
    /// UART driver failure, with the driver's name for the error.
    Uart(String),
    /// The peer replied with an incompatible protocol version.
    Version(u8),
    /// No reply arrived within the timeout.
    Timeout,
    /// The payload does not fit the protocol.
    BadPayload,
}

/// The message of an error.
pub open spec fn co_error_text(e: CoError) -> Seq<char> {
    match e {
        CoError::NotPresent => "coprocessor not present"@,
        CoError::Uart(name) => "uart error: "@ + name@,
        CoError::Version(v) => "coprocessor protocol version "@ + nat_text(v as nat)
            + " unsupported"@,
        CoError::Timeout => "coprocessor did not answer in time"@,
        CoError::BadPayload => "coprocessor payload malformed"@,
    }
}

impl CoError {
    /// The message for the log.
    pub fn text(&self) -> (s: String)
        ensures
            s@ == co_error_text(*self),
    {
        match self {
            CoError::NotPresent => "coprocessor not present".to_owned(),
            CoError::Uart(name) => {
                let mut s = "uart error: ".to_owned();
                s.append(name.as_str());
                s
            },
            CoError::Version(v) => {
                let mut s = "coprocessor protocol version ".to_owned();
                push_dec(&mut s, *v as u64);
                s.append(" unsupported");
                s
            },
            CoError::Timeout => "coprocessor did not answer in time".to_owned(),
            CoError::BadPayload => "coprocessor payload malformed".to_owned(),
        }
    }
}

/// Outcome of a probe.
#[derive(Clone, Copy, Debug, PartialEq, Eq, Structural)]
pub enum CoState {
    /// The coprocessor answered; the link is usable.
    Present { caps: u16, fw_version: u32 },
    /// No coprocessor, or it stayed silent.
    Absent,
}

/// What to do next while waiting for frames.
#[derive(Debug)]
pub enum Waiting {
    /// A frame that was waited for.
    Got(Frame),
    /// The deadline passed: stop.
    Expired,
    /// Read from the UART, feed what arrives, and ask again.
    Read,
}

/// The header of an outgoing message.
pub open spec fn message_header(kind: u8, seq: u32, payload_len: u16) -> Header {
    Header {
        magic: MAGIC,
        version: VERSION,
        msg_type: kind,
        flags: 0,
        reserved: 0,
        seq,
        payload_len,
        crc16: 0,
    }
}

/// The first frame of type `wanted` in a stream and what follows it; frames of
/// other types are discarded.
pub open spec fn first_of(s: Seq<u8>, wanted: u8) -> (Option<FrameView>, Seq<u8>)
    decreases s.len(),
{
    match hunt(s).0 {
        None => (None, hunt(s).1),
        Some(f) => if f.header.msg_type == wanted || hunt(s).1.len() >= s.len() {
            (Some(f), hunt(s).1)
        } else {
            first_of(hunt(s).1, wanted)
        },
    }
}

/// The frame that the search finds is of the wanted type.
pub proof fn first_of_is_wanted(s: Seq<u8>, wanted: u8)
    ensures
        first_of(s, wanted).0 matches Some(f) ==> f.header.msg_type == wanted,
        first_of(s, wanted).1.len() <= s.len(),
    decreases s.len(),
{
    crate::rp2350::framer::hunt_makes_progress(s);
    if hunt(s).0 is Some && hunt(s).0->0.header.msg_type != wanted {
        first_of_is_wanted(hunt(s).1, wanted);
    }
}

/// The deadline of a wait that starts at `now_ms`.
pub open spec fn deadline(now_ms: u64, timeout_ms: u64) -> u64 {
    if now_ms + timeout_ms > u64::MAX {
        u64::MAX
    } else {
        (now_ms + timeout_ms) as u64
    }
}

/// A wait lasts as long as it was given, or until the clock ends.
pub proof fn waits_last_as_long_as_given(now_ms: u64, timeout_ms: u64)
    ensures
        deadline(now_ms, timeout_ms) >= now_ms,
        now_ms + timeout_ms <= u64::MAX ==> deadline(now_ms, timeout_ms) - now_ms == timeout_ms,
        now_ms + timeout_ms > u64::MAX ==> deadline(now_ms, timeout_ms) == u64::MAX,
{
}

/// What a reply to HELLO says of the coprocessor.
pub open spec fn probe_result(reply: Option<FrameView>) -> CoState {
    match reply {
        Some(f) => if f.header.version == VERSION && f.payload.len() >= 12 {
            CoState::Present { caps: u16_at(f.payload, 0), fw_version: u32_at(f.payload, 8) }
        } else {
            CoState::Absent
        },
        None => CoState::Absent,
    }
}

/// A coprocessor is present exactly when it answers in this version with a
/// whole acknowledgement, and then it is known by what it says of itself.
pub proof fn an_acknowledgement_makes_it_present(
    f: FrameView,
    a: HelloAck,
    rest: Seq<u8>,
)
    requires
        f.payload == crate::protocol::cp::hello_ack_bytes(a) + rest,
    ensures
        f.header.version == 1 ==> probe_result(Some(f)) == (CoState::Present {
            caps: a.caps,
            fw_version: a.fw_version,
        }),
        f.header.version != 1 ==> probe_result(Some(f)) == CoState::Absent,
        probe_result(None) == CoState::Absent,
{
    let p = f.payload;
    assert(p.subrange(0, 2) =~= crate::wire::u16_bytes(a.caps));
    assert(p.subrange(8, 12) =~= crate::wire::u32_bytes(a.fw_version));
    crate::wire::u16_round_trip(p, 0, a.caps);
    crate::wire::u32_round_trip(p, 8, a.fw_version);
}

/// A short acknowledgement makes nothing present.
pub proof fn a_short_acknowledgement_is_none(f: FrameView)
    requires
        f.payload.len() < 12,
    ensures
        probe_result(Some(f)) == CoState::Absent,
{
}

/// Conversation state: undecoded bytes, next sequence number, presence.
pub struct Link {
    decoder: FrameDecoder,
    seq: SeqCounter,
    present: bool,
}

impl Link {
    /// Received bytes not yet consumed.
    pub closed spec fn pending(&self) -> Seq<u8> {
        self.decoder@
    }

    /// The next message's sequence number.
    pub closed spec fn next_seq(&self) -> u32 {
        self.seq@
    }

    /// Whether the coprocessor answered the last probe.
    pub closed spec fn present(&self) -> bool {
        self.present
    }

    pub fn new() -> (l: Self)
        ensures
            l.pending() == Seq::<u8>::empty(),
            l.next_seq() == 1,
            !l.present(),
    {
        Self { decoder: FrameDecoder::new(), seq: SeqCounter::new(), present: false }
    }

    /// Starts a probe: the HELLO frame to send.
    pub fn probe(&mut self) -> (bytes: Vec<u8>)
        ensures
            bytes@ == frame_bytes(message_header(msg_type::HELLO, old(self).next_seq(), 0), Seq::empty()),
            final(self).next_seq() == (old(self).next_seq() + 1) % 0x1_0000_0000,
            final(self).pending() == old(self).pending(),
            final(self).present() == old(self).present(),
    {
        self.send_empty(msg_type::HELLO)
    }

    /// Finishes a probe with the reply, if one came in time.
    pub fn probe_reply(&mut self, reply: Option<Frame>) -> (state: CoState)
        ensures
            state == probe_result(
                match reply {
                    Some(f) => Some(f@),
                    None => None,
                },
            ),
            final(self).present() == (state != CoState::Absent),
            final(self).next_seq() == old(self).next_seq(),
            final(self).pending() == old(self).pending(),
    {
        match reply {
            Some(frame) => {
                if !compatible(VERSION, frame.header.version) {
                    self.present = false;
                    return CoState::Absent;
                }
                match parse_ack(frame.payload.as_slice()) {
                    Some(ack) => {
                        self.present = true;
                        CoState::Present { caps: ack.caps, fw_version: ack.fw_version }
                    },
                    None => {
                        self.present = false;
                        CoState::Absent
                    },
                }
            },
            None => {
                self.present = false;
                CoState::Absent
            },
        }
    }

    /// Whether the last probe succeeded and the link is usable.
    pub fn is_present(&self) -> (p: bool)
        ensures
            p == self.present(),
    {
        self.present
    }

    /// The frame that carries a payload to the coprocessor. A payload over the
    /// protocol's limit is refused and uses up no sequence number.
    pub fn push(&mut self, kind: u8, payload: &[u8]) -> (r: Result<Vec<u8>, CoError>)
        ensures
            final(self).pending() == old(self).pending(),
            final(self).present() == old(self).present(),
            match r {
                Ok(bytes) => {
                    &&& payload@.len() <= 1024
                    &&& bytes@ == frame_bytes(
                        message_header(kind, old(self).next_seq(), payload@.len() as u16),
                        payload@,
                    )
                    &&& final(self).next_seq() == (old(self).next_seq() + 1) % 0x1_0000_0000
                },
                Err(e) => {
                    &&& payload@.len() > 1024
                    &&& e == CoError::BadPayload
                    &&& final(self).next_seq() == old(self).next_seq()
                },
            },
    {
        if payload.len() > MAX_PAYLOAD {
            return Err(CoError::BadPayload);
        }
        let seq: u32 = self.seq.next();
        Ok(message(kind, seq, payload))
    }

    /// Starts a health check: the STATUS frame to send.
    pub fn poll_status(&mut self) -> (bytes: Vec<u8>)
        ensures
            bytes@ == frame_bytes(
                message_header(msg_type::STATUS, old(self).next_seq(), 0),
                Seq::empty(),
            ),
            final(self).next_seq() == (old(self).next_seq() + 1) % 0x1_0000_0000,
            final(self).pending() == old(self).pending(),
            final(self).present() == old(self).present(),
    {
        self.send_empty(msg_type::STATUS)
    }

    /// Adds bytes that the UART delivered.
    pub fn feed(&mut self, chunk: &[u8])
        requires
            old(self).pending().len() + chunk@.len() <= usize::MAX,
        ensures
            final(self).pending() == capped(old(self).pending() + chunk@),
            final(self).next_seq() == old(self).next_seq(),
            final(self).present() == old(self).present(),
    {
        self.decoder.feed(chunk);
    }

    /// Takes the next frame of any type, or says whether to go on reading.
    pub fn drain(&mut self, now_ms: u64, deadline_ms: u64) -> (w: Waiting)
        ensures
            final(self).pending() == hunt(old(self).pending()).1,
            final(self).next_seq() == old(self).next_seq(),
            final(self).present() == old(self).present(),
            match w {
                Waiting::Got(f) => hunt(old(self).pending()).0 == Some(f@),
                Waiting::Expired => hunt(old(self).pending()).0 is None && now_ms >= deadline_ms,
                Waiting::Read => hunt(old(self).pending()).0 is None && now_ms < deadline_ms,
            },
    {
        match self.decoder.next() {
            Some(frame) => Waiting::Got(frame),
            None => if now_ms >= deadline_ms {
                Waiting::Expired
            } else {
                Waiting::Read
            },
        }
    }

    /// Takes the next frame of type `wanted`, discarding others, or says
    /// whether to go on reading.
    pub fn wait_for(&mut self, wanted: u8, now_ms: u64, deadline_ms: u64) -> (w: Waiting)
        ensures
            final(self).pending() == first_of(old(self).pending(), wanted).1,
            final(self).next_seq() == old(self).next_seq(),
            final(self).present() == old(self).present(),
            match w {
                Waiting::Got(f) => first_of(old(self).pending(), wanted).0 == Some(f@)
                    && f@.header.msg_type == wanted,
                Waiting::Expired => first_of(old(self).pending(), wanted).0 is None && now_ms
                    >= deadline_ms,
                Waiting::Read => first_of(old(self).pending(), wanted).0 is None && now_ms
                    < deadline_ms,
            },
    {
        let ghost all = self.decoder@;
        proof {
            first_of_is_wanted(all, wanted);
        }
        loop
            invariant
                first_of(self.decoder@, wanted) == first_of(all, wanted),
                all == old(self).pending(),
                self.seq == old(self).seq,
                self.present == old(self).present,
            decreases self.decoder@.len(),
        {
            proof {
                crate::rp2350::framer::hunt_makes_progress(self.decoder@);
            }
            match self.decoder.next() {
                Some(frame) => {
                    if frame.kind() == wanted {
                        return Waiting::Got(frame);
                    }
                },
                None => {
                    return if now_ms >= deadline_ms {
                        Waiting::Expired
                    } else {
                        Waiting::Read
                    };
                },
            }
        }
    }

    /// A header-only frame.
    fn send_empty(&mut self, kind: u8) -> (bytes: Vec<u8>)
        ensures
            bytes@ == frame_bytes(message_header(kind, old(self).next_seq(), 0), Seq::empty()),
            final(self).next_seq() == (old(self).next_seq() + 1) % 0x1_0000_0000,
            final(self).pending() == old(self).pending(),
            final(self).present() == old(self).present(),
    {
        let seq: u32 = self.seq.next();
        let nothing: Vec<u8> = Vec::new();
        assert(nothing@ =~= Seq::<u8>::empty());
        message(kind, seq, nothing.as_slice())
    }
}

/// When a wait of `timeout_ms` that starts now must end.
pub fn deadline_after(now_ms: u64, timeout_ms: u64) -> (d: u64)
    ensures
        d == deadline(now_ms, timeout_ms),
{
    now_ms.saturating_add(timeout_ms)
}

/// The frame of one message.
fn message(kind: u8, seq: u32, payload: &[u8]) -> (bytes: Vec<u8>)
    requires
        payload@.len() <= 1024,
    ensures
        bytes@ == frame_bytes(message_header(kind, seq, payload@.len() as u16), payload@),
{
    let hdr = Header {
        magic: MAGIC,
        version: VERSION,
        msg_type: kind,
        flags: 0,
        reserved: 0,
        seq,
        payload_len: payload.len() as u16,
        crc16: 0,
    };
    let total: usize = HEADER_SIZE + payload.len();
    let mut bytes: Vec<u8> = vec![0u8; total];
    let ghost blank = bytes@;
    let _ = cp::build(bytes.as_mut_slice(), &hdr, payload);
    proof {
        cp::header_round_trip(cp::sealed(hdr, payload@), Seq::empty());
        assert(bytes@ =~= frame_bytes(hdr, payload@));
    }
    bytes
}

/// Decodes a HELLO answer, if there are bytes enough.
pub fn parse_ack(payload: &[u8]) -> (r: Option<HelloAck>)
    ensures
        match r {
            Some(a) => payload@.len() >= 12 && hello_ack_at(payload@, a),
            None => payload@.len() < 12,
        },
{
    if payload.len() < HELLO_ACK_SIZE {
        return None;
    }
    let reserved: [u8; 3] = [payload[5], payload[6], payload[7]];
    assert(reserved@ =~= payload@.subrange(5, 8));
    Some(
        HelloAck {
            caps: get_u16(payload, 0),
            max_rate_hz: get_u16(payload, 2),
            fft_size_log2: payload[4],
            reserved,
            fw_version: get_u32(payload, 8),
        },
    )
}

/// Decodes a coprocessor status, if there are bytes enough.
pub fn parse_status(payload: &[u8]) -> (r: Option<Status>)
    ensures
        r == if payload@.len() >= 8 { Some(status_at(payload@)) } else { None },
{
    if payload.len() < STATUS_SIZE {
        return None;
    }
    Some(
        Status {
            uptime_s: get_u32(payload, 0),
            heap_free: get_u16(payload, 4),
            queue_depth_pct: payload[6],
            dsp_load_pct: payload[7],
        },
    )
}

} // verus!

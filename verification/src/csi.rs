//! Raw CSI frames between the capture callback and the radar task.
//!
//! The capture callback copies one observation into a preallocated slot of a
//! bounded ring; the radar task takes observations out at the other end.
//! [`wifi`] decodes the metadata words of an observation.

use vstd::prelude::*;

pub mod wifi;

verus! {

/// Upper bound on one HT20 CSI frame: 64 FFT bins of I/Q pairs, plus slack.
pub const MAX_CSI_LEN: usize = 256;

/// Metadata of one observation.
#[derive(Clone, Copy, Debug)]
pub struct CsiInfo {
    /// dBm.
    pub rssi: i16,
    /// dBm.
    pub noise_floor: i16,
    /// Primary channel.
    pub channel: i8,
    /// 0 is non-HT, 1 is HT.
    pub sig_mode: u8,
    pub mcs: u8,
    /// 0 is 20 MHz, 1 is 40 MHz.
    pub cwb: u8,
    pub timestamp_us: u32,
    pub sig_len: u16,
    pub first_word_invalid: bool,
    /// Source MAC of the packet.
    pub mac: [u8; 6],
    /// Packet sequence number (pairs with the transmitter's).
    pub rx_seq: u16,
}

/// The metadata of a slot that was never filled.
pub open spec fn blank_info() -> CsiInfo {
    CsiInfo {
        rssi: 0,
        noise_floor: 0,
        channel: 0,
        sig_mode: 0,
        mcs: 0,
        cwb: 0,
        timestamp_us: 0,
        sig_len: 0,
        first_word_invalid: false,
        mac: [0u8, 0u8, 0u8, 0u8, 0u8, 0u8],
        rx_seq: 0,
    }
}

impl Default for CsiInfo {
    fn default() -> (i: Self)
        ensures
            i == blank_info(),
    {
        let i = CsiInfo {
            rssi: 0,
            noise_floor: 0,
            channel: 0,
            sig_mode: 0,
            mcs: 0,
            cwb: 0,
            timestamp_us: 0,
            sig_len: 0,
            first_word_invalid: false,
            mac: [0u8, 0u8, 0u8, 0u8, 0u8, 0u8],
            rx_seq: 0,
        };
        assert(i.mac =~= blank_info().mac);
        i
    }
}

/// One raw observation, owned by the radar task.
#[derive(Clone, Debug)]
pub struct CsiFrame {
    pub info: CsiInfo,
    pub buf: Vec<i8>,
}

/// An observation as a value: its metadata and its samples.
#[verifier::ext_equal]
pub struct FrameView {
    pub info: CsiInfo,
    pub buf: Seq<i8>,
}

impl View for CsiFrame {
    type V = FrameView;

    open spec fn view(&self) -> FrameView {
        FrameView { info: self.info, buf: self.buf@ }
    }
}

struct Slot {
    info: CsiInfo,
    buf: Vec<i8>,
    len: usize,
}

impl Slot {
    spec fn wf(self) -> bool {
        self.buf@.len() == MAX_CSI_LEN && self.len <= MAX_CSI_LEN
    }

    spec fn held(self) -> FrameView {
        FrameView { info: self.info, buf: self.buf@.subrange(0, self.len as int) }
    }
}

/// Bounded first-in first-out ring of observations. Slots are preallocated,
/// so adding one neither allocates nor blocks. One slot always stays free, so
/// a ring of `cap` slots holds `cap - 1` observations.
pub struct CsiRing {
    slots: Vec<Slot>,
    cap: usize,
    head: usize,
    tail: usize,
    overflow: usize,
}

/// What a ring is, apart from how its slots are laid out.
#[verifier::ext_equal]
pub struct RingView {
    /// Number of slots.
    pub cap: nat,
    /// The observations held, oldest first.
    pub frames: Seq<FrameView>,
    /// Observations dropped because the ring was full.
    pub dropped: nat,
}

/// The part of a sample buffer that a slot keeps.
pub open spec fn kept(buf: Seq<i8>) -> Seq<i8> {
    if buf.len() <= MAX_CSI_LEN {
        buf
    } else {
        buf.subrange(0, MAX_CSI_LEN as int)
    }
}

/// The ring after an observation is offered: it is appended when there is
/// room, and counted as dropped otherwise. The count wraps at the word size.
pub open spec fn pushed(r: RingView, info: CsiInfo, buf: Seq<i8>) -> RingView {
    if r.frames.len() + 1 < r.cap {
        RingView { frames: r.frames.push(FrameView { info, buf: kept(buf) }), ..r }
    } else {
        RingView {
            dropped: if r.dropped == usize::MAX {
                0
            } else {
                r.dropped + 1
            },
            ..r
        }
    }
}

/// The ring after its oldest observation is taken.
pub open spec fn popped(r: RingView) -> RingView {
    if r.frames.len() == 0 {
        r
    } else {
        RingView { frames: r.frames.subrange(1, r.frames.len() as int), ..r }
    }
}

/// The place `i` steps after `tail` on a circle of `cap` places.
spec fn place(tail: int, i: int, cap: int) -> int {
    if tail + i < cap {
        tail + i
    } else {
        tail + i - cap
    }
}

impl CsiRing {
    spec fn count(self) -> int {
        if self.head >= self.tail {
            self.head - self.tail
        } else {
            self.head + self.cap - self.tail
        }
    }

    /// The ring's indices are inside its slots and every slot is whole.
    pub closed spec fn wf(self) -> bool {
        &&& 2 <= self.cap == self.slots@.len()
        &&& self.head < self.cap
        &&& self.tail < self.cap
        &&& forall|i: int| 0 <= i < self.slots@.len() ==> (#[trigger] self.slots@[i]).wf()
    }

    pub closed spec fn frames(self) -> Seq<FrameView> {
        Seq::new(
            self.count() as nat,
            |i: int| self.slots@[place(self.tail as int, i, self.cap as int)].held(),
        )
    }

    pub closed spec fn slots(self) -> nat {
        self.cap as nat
    }

    pub closed spec fn dropped(self) -> nat {
        self.overflow as nat
    }
}

impl View for CsiRing {
    type V = RingView;

    open spec fn view(&self) -> RingView {
        RingView { cap: self.slots(), frames: self.frames(), dropped: self.dropped() }
    }
}

/// A ring in use holds fewer observations than it has slots.
pub open spec fn bounded(r: RingView) -> bool {
    2 <= r.cap && r.frames.len() < r.cap && r.dropped <= usize::MAX
}

/// Offering and taking observations keep a ring within its bound.
pub proof fn ring_stays_bounded(r: RingView, info: CsiInfo, buf: Seq<i8>)
    requires
        bounded(r),
    ensures
        bounded(pushed(r, info, buf)),
        bounded(popped(r)),
{
}

/// An observation offered to an empty ring is the next one taken, cut to the
/// slot size, and the ring is empty again.
pub proof fn push_then_pop(r: RingView, info: CsiInfo, buf: Seq<i8>)
    requires
        bounded(r),
        r.frames.len() == 0,
    ensures
        pushed(r, info, buf).frames[0] == (FrameView { info, buf: kept(buf) }),
        popped(pushed(r, info, buf)) == r,
{
    assert(popped(pushed(r, info, buf)) =~= r);
}

/// Observations leave in the order in which they came: offering one to a ring
/// that holds others does not change which is next.
pub proof fn push_keeps_order(r: RingView, info: CsiInfo, buf: Seq<i8>)
    requires
        bounded(r),
        r.frames.len() > 0,
    ensures
        pushed(r, info, buf).frames[0] == r.frames[0],
        popped(pushed(r, info, buf)).frames.is_prefix_of(pushed(popped(r), info, buf).frames),
        r.frames.len() + 1 < r.cap ==> popped(pushed(r, info, buf)) == pushed(
            popped(r),
            info,
            buf,
        ),
{
    if r.frames.len() + 1 < r.cap {
        assert(popped(pushed(r, info, buf)) =~= pushed(popped(r), info, buf));
    }
}

/// Nothing is lost unseen: every observation offered is held or counted.
pub proof fn push_accounts_for_every_frame(r: RingView, info: CsiInfo, buf: Seq<i8>)
    requires
        bounded(r),
        r.dropped < usize::MAX,
    ensures
        pushed(r, info, buf).frames.len() + pushed(r, info, buf).dropped == r.frames.len()
            + r.dropped + 1,
{
}

impl CsiRing {
    /// A ring of at least two slots.
    pub fn new(cap: usize) -> (r: Self)
        ensures
            r.wf(),
            bounded(r@),
            r@ == (RingView {
                cap: if cap < 2 {
                    2
                } else {
                    cap as nat
                },
                frames: Seq::empty(),
                dropped: 0,
            }),
    {
        let cap: usize = if cap < 2 {
            2
        } else {
            cap
        };
        let mut slots: Vec<Slot> = Vec::new();
        let mut i: usize = 0;
        while i < cap
            invariant
                i <= cap,
                slots@.len() == i,
                forall|k: int| 0 <= k < slots@.len() ==> (#[trigger] slots@[k]).wf(),
            decreases cap - i,
        {
            slots.push(Slot { info: CsiInfo::default(), buf: vec![0i8; MAX_CSI_LEN], len: 0 });
            i += 1;
        }
        let r = CsiRing { slots, cap, head: 0, tail: 0, overflow: 0 };
        assert(r.frames() =~= Seq::empty());
        r
    }

    /// Number of slots.
    pub fn capacity(&self) -> (n: usize)
        ensures
            n == self@.cap,
    {
        self.cap
    }

    /// Observations dropped because the ring was full, modulo 2^32.
    pub fn overflow_count(&self) -> (n: u32)
        ensures
            n == self@.dropped % 0x1_0000_0000,
    {
        (self.overflow as u64 % 0x1_0000_0000) as u32
    }

    /// Offers an observation; says whether it was kept.
    pub fn push(&mut self, info: CsiInfo, buf: &[i8]) -> (accepted: bool)
        requires
            old(self).wf(),
        ensures
            final(self).wf(),
            final(self)@ == pushed(old(self)@, info, buf@),
            accepted == (old(self)@.frames.len() + 1 < old(self)@.cap),
    {
        let next: usize = if self.head + 1 == self.cap {
            0
        } else {
            self.head + 1
        };
        if next == self.tail {
            self.overflow = self.overflow.wrapping_add(1);
            assert(self.frames() =~= old(self).frames());
            assert(self@ =~= pushed(old(self)@, info, buf@));
            return false;
        }
        let n: usize = if buf.len() < MAX_CSI_LEN {
            buf.len()
        } else {
            MAX_CSI_LEN
        };
        let head: usize = self.head;
        let slot = &mut self.slots[head];
        slot.info = info;
        slot.len = n;
        let mut i: usize = 0;
        while i < n
            invariant
                i <= n,
                n <= MAX_CSI_LEN,
                n <= buf@.len(),
                slot.info == info,
                slot.len == n,
                slot.buf@.len() == MAX_CSI_LEN,
                forall|k: int| 0 <= k < i ==> slot.buf@[k] == buf@[k],
            decreases n - i,
        {
            slot.buf[i] = buf[i];
            i += 1;
        }
        self.head = next;
        assert(self.slots@[head as int].held().buf =~= kept(buf@));
        assert(self@ =~= pushed(old(self)@, info, buf@)) by {
            assert(self.frames() =~= old(self).frames().push(self.slots@[head as int].held()));
        }
        true
    }

    /// Takes the oldest observation, if there is one.
    pub fn pop(&mut self) -> (f: Option<CsiFrame>)
        requires
            old(self).wf(),
        ensures
            final(self).wf(),
            final(self)@ == popped(old(self)@),
            match f {
                Some(frame) => old(self)@.frames.len() > 0 && frame@ == old(self)@.frames[0],
                None => old(self)@.frames.len() == 0,
            },
    {
        if self.tail == self.head {
            assert(self@ =~= popped(old(self)@));
            return None;
        }
        let tail: usize = self.tail;
        let slot = &self.slots[tail];
        let len: usize = slot.len;
        let mut buf: Vec<i8> = Vec::new();
        let mut i: usize = 0;
        assert(slot.wf());
        while i < len
            invariant
                i <= len,
                len <= slot.buf@.len(),
                buf@ == slot.buf@.subrange(0, i as int),
            decreases len - i,
        {
            buf.push(slot.buf[i]);
            i += 1;
            assert(slot.buf@.subrange(0, i as int) =~= slot.buf@.subrange(0, i - 1).push(
                slot.buf@[i - 1],
            ));
        }
        let frame = CsiFrame { info: slot.info, buf };
        assert(place(self.tail as int, 0, self.cap as int) == tail);
        self.tail = if tail + 1 == self.cap {
            0
        } else {
            tail + 1
        };
        assert(self@ =~= popped(old(self)@)) by {
            assert(self.frames() =~= old(self).frames().subrange(
                1,
                old(self).frames().len() as int,
            ));
        }
        Some(frame)
    }

    /// Whether the ring holds nothing.
    pub fn is_empty(&self) -> (e: bool)
        requires
            self.wf(),
        ensures
            e == (self@.frames.len() == 0),
    {
        self.tail == self.head
    }

    /// Number of observations held.
    pub fn len(&self) -> (n: usize)
        requires
            self.wf(),
        ensures
            n == self@.frames.len(),
    {
        if self.head >= self.tail {
            self.head - self.tail
        } else {
            self.cap - self.tail + self.head
        }
    }
}

} // verus!

//! Recorded CSI scenarios: the blob they are kept in, and the feed that
//! replays one into the capture ring.
//!
//! Blob layout, little-endian:
//!
//! ```text
//! offset 0   u32 magic
//! offset 4   u8  version
//! offset 5   u8  channel
//! offset 6   u16 reserved
//! offset 8   u32 rate_hz
//! offset 12  u32 n_frames
//! offset 16  i16 rssi
//! offset 18  i16 noise_floor
//! offset 20  u8  mac[6]
//! offset 26  u8  cwb
//! offset 27  u8  sig_mode
//! offset 28  u16 frame_len (128)
//! offset 30  u16 reserved
//! offset 32  n_frames records of frame_len raw samples
//! ```

use vstd::prelude::*;

use crate::csi::CsiInfo;
use crate::wire::{
    get_i16, get_u16, get_u32, i16_at, i16_bytes, i16_round_trip, put_i16, put_u16, put_u32,
    to_i8, u16_at, u16_bytes, u16_of_i16, u16_round_trip, u32_at, u32_bytes, u32_round_trip,
    write_at,
};

verus! {

/// Blob magic ("SIMD").
pub const SIM_MAGIC: u32 = 0x444D_4953;

/// Blob schema version.
pub const SIM_VERSION: u8 = 1;

/// Header bytes before the records.
pub const SIM_HEADER_LEN: usize = 32;

/// Raw samples per record: 64 FFT bins of I/Q pairs.
pub const SIM_FRAME_LEN: usize = 128;

/// What a scenario's header tells.
#[derive(Clone, Copy, Debug, PartialEq, Eq)]
pub struct SimHeader {
    pub channel: u8,
    pub rate_hz: u32,
    pub n_frames: u32,
    pub rssi: i16,
    pub noise_floor: i16,
    pub mac: [u8; 6],
    pub cwb: u8,
    pub sig_mode: u8,
}

/// Why a blob cannot be replayed.
#[derive(Clone, Copy, Debug, PartialEq, Eq, Structural)]
pub enum SimError {
    BadMagic(u32),
    UnsupportedVersion(u8),
    BadFrameLen(u16),
}

/// The encoded header.
pub open spec fn sim_header_bytes(h: SimHeader) -> Seq<u8> {
    u32_bytes(SIM_MAGIC) + seq![SIM_VERSION, h.channel, 0, 0] + u32_bytes(h.rate_hz) + u32_bytes(
        h.n_frames,
    ) + i16_bytes(h.rssi) + i16_bytes(h.noise_floor) + seq![
        h.mac[0],
        h.mac[1],
        h.mac[2],
        h.mac[3],
        h.mac[4],
        h.mac[5],
        h.cwb,
        h.sig_mode,
    ] + u16_bytes(128) + seq![0, 0]
}

/// The header fields of a blob.
pub open spec fn sim_header_at(b: Seq<u8>) -> SimHeader {
    SimHeader {
        channel: b[5],
        rate_hz: u32_at(b, 8),
        n_frames: u32_at(b, 12),
        rssi: i16_at(b, 16),
        noise_floor: i16_at(b, 18),
        mac: [b[20], b[21], b[22], b[23], b[24], b[25]],
        cwb: b[26],
        sig_mode: b[27],
    }
}

/// What reading a header gives: the first thing wrong with it, or its fields.
pub open spec fn sim_header_of(b: Seq<u8>) -> Result<SimHeader, SimError> {
    if u32_at(b, 0) != SIM_MAGIC {
        Err(SimError::BadMagic(u32_at(b, 0)))
    } else if b[4] != SIM_VERSION {
        Err(SimError::UnsupportedVersion(b[4]))
    } else if u16_at(b, 28) != 128 {
        Err(SimError::BadFrameLen(u16_at(b, 28)))
    } else {
        Ok(sim_header_at(b))
    }
}

/// A written header is read back, whatever records follow it.
pub proof fn sim_header_round_trip(h: SimHeader, rest: Seq<u8>)
    ensures
        sim_header_bytes(h).len() == 32,
        sim_header_of(sim_header_bytes(h) + rest) == Ok::<SimHeader, SimError>(h),
{
    let b = sim_header_bytes(h) + rest;
    assert(b.subrange(0, 4) =~= u32_bytes(SIM_MAGIC));
    assert(b.subrange(8, 12) =~= u32_bytes(h.rate_hz));
    assert(b.subrange(12, 16) =~= u32_bytes(h.n_frames));
    assert(b.subrange(16, 18) =~= i16_bytes(h.rssi));
    assert(b.subrange(18, 20) =~= i16_bytes(h.noise_floor));
    assert(b.subrange(28, 30) =~= u16_bytes(128));
    u32_round_trip(b, 0, SIM_MAGIC);
    u32_round_trip(b, 8, h.rate_hz);
    u32_round_trip(b, 12, h.n_frames);
    u16_round_trip(b, 16, u16_of_i16(h.rssi));
    u16_round_trip(b, 18, u16_of_i16(h.noise_floor));
    i16_round_trip(h.rssi);
    i16_round_trip(h.noise_floor);
    u16_round_trip(b, 28, 128);
    assert(b[4] == SIM_VERSION && b[5] == h.channel && b[26] == h.cwb && b[27] == h.sig_mode);
    assert(b[20] == h.mac[0] && b[21] == h.mac[1] && b[22] == h.mac[2] && b[23] == h.mac[3] && b[24]
        == h.mac[4] && b[25] == h.mac[5]);
    assert(sim_header_at(b).mac =~= h.mac);
}

/// Encodes a header.
pub fn write_header(h: &SimHeader) -> (out: [u8; 32])
    ensures
        out@ == sim_header_bytes(*h),
{
    let mut v: Vec<u8> = Vec::new();
    put_u32(&mut v, SIM_MAGIC);
    v.push(SIM_VERSION);
    v.push(h.channel);
    put_u16(&mut v, 0);
    put_u32(&mut v, h.rate_hz);
    put_u32(&mut v, h.n_frames);
    put_i16(&mut v, h.rssi);
    put_i16(&mut v, h.noise_floor);
    v.push(h.mac[0]);
    v.push(h.mac[1]);
    v.push(h.mac[2]);
    v.push(h.mac[3]);
    v.push(h.mac[4]);
    v.push(h.mac[5]);
    v.push(h.cwb);
    v.push(h.sig_mode);
    put_u16(&mut v, 128);
    put_u16(&mut v, 0);
    assert(v@ =~= sim_header_bytes(*h));
    let mut out = [0u8; 32];
    write_at(&mut out, 0, v.as_slice());
    assert(out@ =~= sim_header_bytes(*h));
    out
}

/// Reads a header.
pub fn read_header(b: &[u8; 32]) -> (r: Result<SimHeader, SimError>)
    ensures
        r == sim_header_of(b@),
{
    let s = b.as_slice();
    let magic: u32 = get_u32(s, 0);
    if magic != SIM_MAGIC {
        return Err(SimError::BadMagic(magic));
    }
    if b[4] != SIM_VERSION {
        return Err(SimError::UnsupportedVersion(b[4]));
    }
    let frame_len: u16 = get_u16(s, 28);
    if frame_len != 128 {
        return Err(SimError::BadFrameLen(frame_len));
    }
    let h = SimHeader {
        channel: b[5],
        rate_hz: get_u32(s, 8),
        n_frames: get_u32(s, 12),
        rssi: get_i16(s, 16),
        noise_floor: get_i16(s, 18),
        mac: [b[20], b[21], b[22], b[23], b[24], b[25]],
        cwb: b[26],
        sig_mode: b[27],
    };
    assert(h.mac =~= sim_header_at(b@).mac);
    Ok(h)
}

/// The replay of a scenario.
#[derive(Debug)]
pub struct SimSource {
    pub header: SimHeader,
    /// Next record to replay.
    pub next_idx: u32,
    /// When the replay began, once it has.
    pub start_us: Option<u64>,
}

/// When the record `idx` is due, counted from the start of the replay.
pub open spec fn due_after(idx: u32, rate_hz: u32) -> int
    recommends
        rate_hz > 0,
{
    idx as int * 1_000_000 / rate_hz as int
}

/// Records are due in order.
pub proof fn due_times_are_in_order(i: u32, j: u32, rate_hz: u32)
    requires
        rate_hz > 0,
        i <= j,
    ensures
        0 <= due_after(i, rate_hz) <= due_after(j, rate_hz) <= j * 1_000_000,
{
    let (a, b, r) = (i as int * 1_000_000, j as int * 1_000_000, rate_hz as int);
    assert(0 <= a / r <= b / r <= b) by (nonlinear_arith)
        requires
            0 <= a <= b,
            r > 0,
    ;
}

/// A record is due at its exact time, cut to whole microseconds: `rate_hz`
/// records take a second.
pub proof fn records_keep_the_rate(idx: u32, rate_hz: u32)
    requires
        rate_hz > 0,
    ensures
        rate_hz * due_after(idx, rate_hz) <= idx * 1_000_000 < rate_hz * (due_after(idx, rate_hz)
            + 1),
        due_after(0, rate_hz) == 0,
        due_after(rate_hz, rate_hz) == 1_000_000,
{
    let (a, r) = (idx as int * 1_000_000, rate_hz as int);
    vstd::arithmetic::div_mod::lemma_fundamental_div_mod(a, r);
    vstd::arithmetic::div_mod::lemma_mod_bound(a, r);
    let d = a / r;
    assert(r * (d + 1) == r * d + r) by (nonlinear_arith);
    assert(0int / r == 0) by (nonlinear_arith)
        requires
            r > 0,
    ;
    assert((r * 1_000_000) / r == 1_000_000) by (nonlinear_arith)
        requires
            r > 0,
    ;
}

/// The records follow the header one after the other, 128 bytes each.
pub proof fn records_follow_one_another(idx: u32)
    requires
        idx < u32::MAX,
    ensures
        record_offset(0) == 32,
        record_offset((idx + 1) as u32) == record_offset(idx) + 128,
{
}

/// A replayed record is offered as the recorded radio heard it, numbered in
/// turn and stamped with the time of the replay.
pub proof fn records_are_offered_as_recorded(h: SimHeader, idx: u32, now_us: u64)
    ensures
        ({
            let i = record_info(h, idx, now_us);
            &&& i.rssi == h.rssi && i.noise_floor == h.noise_floor
            &&& i.sig_mode == h.sig_mode && i.cwb == h.cwb && i.mac == h.mac
            &&& h.channel < 128 ==> i.channel == h.channel
            &&& now_us <= u32::MAX ==> i.timestamp_us == now_us
            &&& idx <= u16::MAX ==> i.rx_seq == idx
            &&& i.sig_len == 128 && !i.first_word_invalid
        }),
{
}

/// Where a blob's header holds its fields.
pub proof fn sim_header_layout(h: SimHeader)
    ensures
        ({
            let b = sim_header_bytes(h);
            &&& u32_at(b, 0) == SIM_MAGIC
            &&& b[4] == SIM_VERSION
            &&& b[5] == h.channel
            &&& u32_at(b, 8) == h.rate_hz
            &&& u32_at(b, 12) == h.n_frames
            &&& i16_at(b, 16) == h.rssi
            &&& i16_at(b, 18) == h.noise_floor
            &&& b.subrange(20, 26) == h.mac@
            &&& b[26] == h.cwb
            &&& b[27] == h.sig_mode
            &&& u16_at(b, 28) == 128
        }),
{
    sim_header_round_trip(h, Seq::empty());
    let b = sim_header_bytes(h);
    assert(b + Seq::empty() =~= b);
    assert(b.subrange(20, 26) =~= h.mac@);
}

/// What the feed is to do next.
#[derive(Clone, Copy, Debug, PartialEq, Eq, Structural)]
pub enum PumpStep {
    /// All records were replayed.
    Drained,
    /// The next record is not due yet.
    Wait,
    /// Read the record at this offset of the blob.
    Read { offset: u64 },
}

/// Where the record `idx` starts.
pub open spec fn record_offset(idx: u32) -> int {
    32 + idx * 128
}

/// The metadata of a replayed record.
pub open spec fn record_info(h: SimHeader, idx: u32, now_us: u64) -> CsiInfo {
    CsiInfo {
        rssi: h.rssi,
        noise_floor: h.noise_floor,
        channel: crate::wire::i8_of_u8(h.channel),
        sig_mode: h.sig_mode,
        mcs: 7,
        cwb: h.cwb,
        timestamp_us: (now_us % 0x1_0000_0000) as u32,
        sig_len: 128,
        first_word_invalid: false,
        mac: h.mac,
        rx_seq: (idx % 0x1_0000) as u16,
    }
}

/// When the replay began, if it begins at `now_us` at the latest.
pub open spec fn started(start_us: Option<u64>, now_us: u64) -> u64 {
    match start_us {
        Some(t) => t,
        None => now_us,
    }
}

impl SimSource {
    /// A replay that has not begun.
    pub fn new(header: SimHeader) -> (s: Self)
        ensures
            s == (SimSource { header, next_idx: 0, start_us: None }),
    {
        SimSource { header, next_idx: 0, start_us: None }
    }

    /// Records of the scenario.
    pub fn n_frames(&self) -> (n: u32)
        ensures
            n == self.header.n_frames,
    {
        self.header.n_frames
    }

    /// Intended record rate.
    pub fn rate_hz(&self) -> (n: u32)
        ensures
            n == self.header.rate_hz,
    {
        self.header.rate_hz
    }

    /// Decides what to do at `now_us`. The first call with records left
    /// starts the clock of the replay.
    pub fn pump(&mut self, now_us: u64) -> (step: PumpStep)
        requires
            old(self).next_idx < old(self).header.n_frames ==> old(self).header.rate_hz > 0
                && started(old(self).start_us, now_us) + due_after(
                old(self).next_idx,
                old(self).header.rate_hz,
            ) <= u64::MAX,
        ensures
            final(self).header == old(self).header,
            final(self).next_idx == old(self).next_idx,
            old(self).next_idx >= old(self).header.n_frames ==> step == PumpStep::Drained
                && final(self).start_us == old(self).start_us,
            old(self).next_idx < old(self).header.n_frames ==> {
                let start = started(old(self).start_us, now_us);
                &&& final(self).start_us == Some(start)
                &&& step == (if now_us < start + due_after(
                    old(self).next_idx,
                    old(self).header.rate_hz,
                ) {
                    PumpStep::Wait
                } else {
                    PumpStep::Read { offset: record_offset(old(self).next_idx) as u64 }
                })
            },
    {
        if self.next_idx >= self.header.n_frames {
            return PumpStep::Drained;
        }
        let start: u64 = match self.start_us {
            Some(t) => t,
            None => now_us,
        };
        self.start_us = Some(start);
        proof {
            due_times_are_in_order(self.next_idx, self.next_idx, self.header.rate_hz);
        }
        let due: u64 = start + self.next_idx as u64 * 1_000_000 / self.header.rate_hz as u64;
        if now_us < due {
            return PumpStep::Wait;
        }
        PumpStep::Read { offset: 32 + self.next_idx as u64 * 128 }
    }

    /// The metadata with which the record that was read is offered.
    pub fn info(&self, now_us: u64) -> (i: CsiInfo)
        ensures
            i == record_info(self.header, self.next_idx, now_us),
    {
        CsiInfo {
            rssi: self.header.rssi,
            noise_floor: self.header.noise_floor,
            channel: to_i8(self.header.channel),
            sig_mode: self.header.sig_mode,
            mcs: 7,
            cwb: self.header.cwb,
            timestamp_us: (now_us % 0x1_0000_0000) as u32,
            sig_len: 128,
            first_word_invalid: false,
            mac: self.header.mac,
            rx_seq: (self.next_idx % 0x1_0000) as u16,
        }
    }

    /// Takes whether the ring accepted the record: only then the next one's
    /// turn comes, so that a full ring delays records and loses none. Says
    /// whether to go on.
    pub fn offered(&mut self, accepted: bool) -> (go_on: bool)
        requires
            old(self).next_idx < old(self).header.n_frames,
        ensures
            go_on == accepted,
            *final(self) == (SimSource {
                next_idx: if accepted {
                    (old(self).next_idx + 1) as u32
                } else {
                    old(self).next_idx
                },
                ..*old(self)
            }),
    {
        if accepted {
            self.next_idx = self.next_idx + 1;
        }
        accepted
    }

    /// Stops the feed after a failed read.
    pub fn read_failed(&mut self)
        ensures
            *final(self) == (SimSource { next_idx: old(self).header.n_frames, ..*old(self) }),
    {
        self.next_idx = self.header.n_frames;
    }
}

/// The record whose turn it is after a series of offers, each accepted or not.
pub open spec fn turn_after(offers: Seq<bool>) -> nat
    decreases offers.len(),
{
    if offers.len() == 0 {
        0
    } else if offers.last() {
        turn_after(offers.drop_last()) + 1
    } else {
        turn_after(offers.drop_last())
    }
}

/// The records delivered by a series of offers, in order of delivery.
pub open spec fn delivered(offers: Seq<bool>) -> Seq<nat>
    decreases offers.len(),
{
    if offers.len() == 0 {
        Seq::empty()
    } else if offers.last() {
        delivered(offers.drop_last()).push(turn_after(offers.drop_last()))
    } else {
        delivered(offers.drop_last())
    }
}

/// The feed is lossless and in order: whatever the ring refuses in between,
/// the records delivered are the first ones, each once and without a gap.
pub proof fn the_feed_is_lossless(offers: Seq<bool>)
    ensures
        delivered(offers) == Seq::new(turn_after(offers), |i: int| i as nat),
    decreases offers.len(),
{
    if offers.len() > 0 {
        the_feed_is_lossless(offers.drop_last());
    }
    assert(delivered(offers) =~= Seq::new(turn_after(offers), |i: int| i as nat));
}

} // verus!

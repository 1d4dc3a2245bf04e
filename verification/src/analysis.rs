//! Summary statistics of a captured stream.

use std::collections::HashMap;

use vstd::prelude::*;
use vstd::string::StringExecFns;

use crate::decoder::real_texts;
use crate::protocol::payloads::{parse_csi_snapshot, parse_feature_report};
use crate::protocol::{frame_type, Header};
use crate::text::{int_text, nat_text, push_dec, push_int};
use crate::transport::tracker::{tracker_start, tracker_step, TrackerView};
use crate::transport::SequenceTracker;
use crate::wire::{i16_at, i8_of_u8, u32_at, F32Bits};

pub mod summary;

verus! {

broadcast use vstd::std_specs::hash::group_hash_axioms;

/// Running aggregate over the frames of a capture.
pub struct Agg {
    pub total: u64,
    pub crc_errors: u64,
    pub truncated: u64,
    /// Frames per frame type.
    pub kinds: HashMap<u8, u64>,
    /// Frames per source node.
    pub per_src: HashMap<u8, u64>,
    /// Earliest timestamp.
    pub first_t: Option<u64>,
    /// Latest timestamp.
    pub last_t: Option<u64>,
    pub rssi_count: u64,
    pub rssi_min: i32,
    pub rssi_max: i32,
    pub rssi_sum: i64,
    /// Time and motion energy of each feature report.
    pub motion: Vec<(u64, F32Bits)>,
    /// Dominant frequency of each feature report.
    pub dominant: Vec<F32Bits>,
    /// Sequence tracking per source node.
    pub trackers: HashMap<u8, SequenceTracker>,
}

/// The count under a key; 0 if there is none.
pub open spec fn count_at(m: Map<u8, u64>, k: u8) -> int {
    if m.contains_key(k) {
        m[k] as int
    } else {
        0
    }
}

/// The counts after one more occurrence of `k`.
pub open spec fn counted(m: Map<u8, u64>, k: u8) -> Map<u8, u64> {
    m.insert(k, (count_at(m, k) + 1) as u64)
}

/// What is known of a node's sequence numbers.
pub open spec fn tracker_of(m: Map<u8, SequenceTracker>, src: u8) -> TrackerView {
    if m.contains_key(src) {
        m[src]@
    } else {
        tracker_start()
    }
}

/// The signal strength that a frame reports, if any.
pub open spec fn rssi_of(kind: u8, p: Seq<u8>) -> Option<int> {
    if kind == frame_type::FEATURE_REPORT && p.len() >= 79 {
        Some(i16_at(p, 12) as int)
    } else if kind == frame_type::CSI_SNAPSHOT && p.len() >= 359 {
        Some(i16_at(p, 4) as int)
    } else {
        None
    }
}

pub open spec fn lesser(a: int, b: int) -> int {
    if a <= b {
        a
    } else {
        b
    }
}

pub open spec fn greater(a: int, b: int) -> int {
    if a >= b {
        a
    } else {
        b
    }
}

impl Agg {
    /// Every node's tracker is sound.
    pub open spec fn well_formed(&self) -> bool {
        forall|s: u8| self.trackers@.contains_key(s) ==> (#[trigger] self.trackers@[s]).well_formed()
    }

    /// No counter overflows when this frame is added.
    pub open spec fn has_room(&self, h: Header, p: Seq<u8>) -> bool {
        &&& self.total < u64::MAX
        &&& count_at(self.kinds@, h.kind) < u64::MAX
        &&& count_at(self.per_src@, h.src_node) < u64::MAX
        &&& tracker_step(tracker_of(self.trackers@, h.src_node), h.seq).total <= u64::MAX
        &&& rssi_of(h.kind, p) matches Some(v) ==> self.rssi_count < u64::MAX && i64::MIN
            <= self.rssi_sum + v <= i64::MAX
    }

    pub fn new() -> (a: Self)
        ensures
            a.well_formed(),
            a.total == 0 && a.crc_errors == 0 && a.truncated == 0,
            a.kinds@ == Map::<u8, u64>::empty(),
            a.per_src@ == Map::<u8, u64>::empty(),
            a.first_t is None && a.last_t is None,
            a.rssi_count == 0 && a.rssi_min == 0 && a.rssi_max == 0 && a.rssi_sum == 0,
            a.motion@ == Seq::<(u64, u32)>::empty(),
            a.dominant@ == Seq::<u32>::empty(),
            a.trackers@ == Map::<u8, SequenceTracker>::empty(),
    {
        Self {
            total: 0,
            crc_errors: 0,
            truncated: 0,
            kinds: HashMap::new(),
            per_src: HashMap::new(),
            first_t: None,
            last_t: None,
            rssi_count: 0,
            rssi_min: 0,
            rssi_max: 0,
            rssi_sum: 0,
            motion: Vec::new(),
            dominant: Vec::new(),
            trackers: HashMap::new(),
        }
    }

    /// Adds a validated frame.
    pub fn feed(&mut self, hdr: &Header, payload: &[u8])
        requires
            old(self).well_formed(),
            old(self).has_room(*hdr, payload@),
        ensures
            final(self).well_formed(),
            final(self).total == old(self).total + 1,
            final(self).crc_errors == old(self).crc_errors,
            final(self).truncated == old(self).truncated,
            final(self).kinds@ == counted(old(self).kinds@, hdr.kind),
            final(self).per_src@ == counted(old(self).per_src@, hdr.src_node),
            final(self).first_t == Some(
                match old(self).first_t {
                    Some(f) => lesser(f as int, hdr.t_us as int) as u64,
                    None => hdr.t_us,
                },
            ),
            final(self).last_t == Some(
                match old(self).last_t {
                    Some(l) => greater(l as int, hdr.t_us as int) as u64,
                    None => hdr.t_us,
                },
            ),
            final(self).trackers@.dom() == old(self).trackers@.dom().insert(hdr.src_node),
            tracker_of(final(self).trackers@, hdr.src_node) == tracker_step(
                tracker_of(old(self).trackers@, hdr.src_node),
                hdr.seq,
            ),
            forall|s: u8|
                s != hdr.src_node && old(self).trackers@.contains_key(s)
                    ==> #[trigger] final(self).trackers@[s] == old(self).trackers@[s],
            match rssi_of(hdr.kind, payload@) {
                Some(v) => final(self).rssi_added(old(self), v),
                None => final(self).same_rssi(old(self)),
            },
            hdr.kind == frame_type::FEATURE_REPORT && payload@.len() >= 79 ==> {
                &&& final(self).motion@ == old(self).motion@.push(
                    (hdr.t_us, u32_at(payload@, 27)),
                )
                &&& final(self).dominant@ == old(self).dominant@.push(u32_at(payload@, 35))
            },
            !(hdr.kind == frame_type::FEATURE_REPORT && payload@.len() >= 79) ==> {
                &&& final(self).motion@ == old(self).motion@
                &&& final(self).dominant@ == old(self).dominant@
            },
    {
        self.total += 1;
        count_up(&mut self.kinds, hdr.kind);
        count_up(&mut self.per_src, hdr.src_node);
        self.first_t = Some(
            match self.first_t {
                Some(f) => if f <= hdr.t_us {
                    f
                } else {
                    hdr.t_us
                },
                None => hdr.t_us,
            },
        );
        self.last_t = Some(
            match self.last_t {
                Some(l) => if l >= hdr.t_us {
                    l
                } else {
                    hdr.t_us
                },
                None => hdr.t_us,
            },
        );
        let mut tracker = match self.trackers.remove(&hdr.src_node) {
            Some(t) => t,
            None => SequenceTracker::new(),
        };
        let _ = tracker.observe(hdr.seq);
        self.trackers.insert(hdr.src_node, tracker);
        assert(self.trackers@.dom() =~= old(self).trackers@.dom().insert(hdr.src_node));
        if hdr.kind == frame_type::FEATURE_REPORT {
            if let Some(fr) = parse_feature_report(payload) {
                self.add_rssi(fr.rssi as i32);
                self.motion.push((hdr.t_us, fr.motion_energy));
                self.dominant.push(fr.dominant_freq_hz);
            }
        } else if hdr.kind == frame_type::CSI_SNAPSHOT {
            if let Some(s) = parse_csi_snapshot(payload) {
                self.add_rssi(s.rssi as i32);
            }
        }
    }

    /// The signal-strength statistics are those of `before` with `v` added.
    pub open spec fn rssi_added(&self, before: &Agg, v: int) -> bool {
        &&& self.rssi_count == before.rssi_count + 1
        &&& self.rssi_sum == before.rssi_sum + v
        &&& self.rssi_min == if before.rssi_count == 0 { v } else { lesser(before.rssi_min as int, v) }
        &&& self.rssi_max == if before.rssi_count == 0 { v } else { greater(before.rssi_max as int, v) }
    }

    /// The signal-strength statistics are those of `before`.
    pub open spec fn same_rssi(&self, before: &Agg) -> bool {
        &&& self.rssi_count == before.rssi_count
        &&& self.rssi_sum == before.rssi_sum
        &&& self.rssi_min == before.rssi_min
        &&& self.rssi_max == before.rssi_max
    }

    /// Adds a signal-strength sample.
    fn add_rssi(&mut self, v: i32)
        requires
            old(self).rssi_count < u64::MAX,
            i64::MIN <= old(self).rssi_sum + v <= i64::MAX,
        ensures
            final(self).rssi_added(old(self), v as int),
            *final(self) == (Agg {
                rssi_count: final(self).rssi_count,
                rssi_sum: final(self).rssi_sum,
                rssi_min: final(self).rssi_min,
                rssi_max: final(self).rssi_max,
                ..*old(self)
            }),
    {
        if self.rssi_count == 0 {
            self.rssi_min = v;
            self.rssi_max = v;
        } else {
            if v < self.rssi_min {
                self.rssi_min = v;
            }
            if v > self.rssi_max {
                self.rssi_max = v;
            }
        }
        self.rssi_sum += v as i64;
        self.rssi_count += 1;
    }

    /// The time between the earliest and the latest frame, if they differ.
    pub fn span_us(&self) -> (r: Option<u64>)
        ensures
            r == match (self.first_t, self.last_t) {
                (Some(f), Some(l)) => if l > f {
                    Some((l - f) as u64)
                } else {
                    None
                },
                _ => None,
            },
    {
        match (self.first_t, self.last_t) {
            (Some(f), Some(l)) => if l > f {
                Some(l - f)
            } else {
                None
            },
            _ => None,
        }
    }

    /// Frames per type, in the order of the type numbers.
    pub fn kind_counts(&self) -> (rows: Vec<(u8, u64)>)
        ensures
            lists_map(rows@, self.kinds@),
    {
        sorted_counts(&self.kinds)
    }

    /// Frames per source node, in the order of the node numbers.
    pub fn source_counts(&self) -> (rows: Vec<(u8, u64)>)
        ensures
            lists_map(rows@, self.per_src@),
    {
        sorted_counts(&self.per_src)
    }

    /// The nodes that have been heard, in order.
    pub fn sources(&self) -> (rows: Vec<u8>)
        ensures
            forall|i: int, j: int| 0 <= i < j < rows@.len() ==> rows@[i] < rows@[j],
            forall|i: int| 0 <= i < rows@.len() ==> self.trackers@.contains_key(#[trigger] rows@[i]),
            forall|s: u8| self.trackers@.contains_key(s) ==> rows@.contains(s),
    {
        let mut rows: Vec<u8> = Vec::new();
        let mut k: u16 = 0;
        while k < 256
            invariant
                k <= 256,
                forall|i: int| 0 <= i < rows@.len() ==> (#[trigger] rows@[i]) < k
                    && self.trackers@.contains_key(rows@[i]),
                forall|i: int, j: int| 0 <= i < j < rows@.len() ==> rows@[i] < rows@[j],
                forall|s: u8| self.trackers@.contains_key(s) && s < k ==> rows@.contains(s),
            decreases 256 - k,
        {
            let key: u8 = k as u8;
            let ghost before = rows@;
            if self.trackers.contains_key(&key) {
                rows.push(key);
                assert(rows@[before.len() as int] == key);
            }
            k += 1;
            assert forall|s: u8| self.trackers@.contains_key(s) && s < k implies rows@.contains(
                s,
            ) by {
                if s < key {
                    assert(before.contains(s));
                    let w = choose|w: int| 0 <= w < before.len() && before[w] == s;
                    assert(rows@[w] == s);
                }
            }
        }
        rows
    }
}

/// `rows` lists the entries of `m` in ascending order of their keys.
pub open spec fn lists_map(rows: Seq<(u8, u64)>, m: Map<u8, u64>) -> bool {
    &&& forall|i: int, j: int| 0 <= i < j < rows.len() ==> rows[i].0 < rows[j].0
    &&& forall|i: int|
        0 <= i < rows.len() ==> m.contains_key((#[trigger] rows[i]).0) && m[rows[i].0] == rows[i].1
    &&& forall|k: u8| m.contains_key(k) ==> rows.contains((k, m[k]))
}

/// Counts one more occurrence of `k`.
fn count_up(m: &mut HashMap<u8, u64>, k: u8)
    requires
        count_at(old(m)@, k) < u64::MAX,
    ensures
        final(m)@ == counted(old(m)@, k),
{
    let n: u64 = match m.get(&k) {
        Some(n) => *n,
        None => 0,
    };
    m.insert(k, n + 1);
}

/// The entries of a map in ascending order of their keys.
fn sorted_counts(m: &HashMap<u8, u64>) -> (rows: Vec<(u8, u64)>)
    ensures
        lists_map(rows@, m@),
{
    let mut rows: Vec<(u8, u64)> = Vec::new();
    let mut k: u16 = 0;
    while k < 256
        invariant
            k <= 256,
            forall|i: int| 0 <= i < rows@.len() ==> (#[trigger] rows@[i]).0 < k && m@.contains_key(
                rows@[i].0,
            ) && m@[rows@[i].0] == rows@[i].1,
            forall|i: int, j: int| 0 <= i < j < rows@.len() ==> rows@[i].0 < rows@[j].0,
            forall|s: u8| m@.contains_key(s) && s < k ==> rows@.contains((s, m@[s])),
        decreases 256 - k,
    {
        let key: u8 = k as u8;
        let ghost before = rows@;
        if let Some(n) = m.get(&key) {
            rows.push((key, *n));
            assert(rows@[before.len() as int] == (key, m@[key]));
        }
        k += 1;
        assert forall|s: u8| m@.contains_key(s) && s < k implies rows@.contains((s, m@[s])) by {
            if s < key {
                let w = choose|w: int| 0 <= w < before.len() && before[w] == (s, m@[s]);
                assert(rows@[w] == (s, m@[s]));
            }
        }
    }
    rows
}

/// The heading of the per-frame table.
pub const CSV_HEADER: &'static str =
    "seq,t_us,kind,src,dst,rssi,snr,motion_energy,amp_mean,dominant_freq_hz";

/// How many reals a frame's table row holds.
pub open spec fn csv_real_count(kind: u8, p: Seq<u8>) -> nat {
    if kind == frame_type::FEATURE_REPORT && p.len() >= 79 {
        3
    } else if kind == frame_type::CSI_SNAPSHOT && p.len() >= 359 && p[13] > 0 {
        1
    } else {
        0
    }
}

/// The sum of the amplitudes of the active subcarriers. Divided by their
/// number, it is their mean amplitude.
pub open spec fn amp_sum(p: Seq<u8>) -> nat {
    crate::decoder::sum_u8(crate::decoder::leading(p.subrange(239, 295), p[13] as int))
}

/// Counting one more adds one to that count and leaves all others.
pub proof fn counting_one_leaves_the_others(m: Map<u8, u64>, k: u8, other: u8)
    requires
        count_at(m, k) < u64::MAX,
    ensures
        count_at(counted(m, k), k) == count_at(m, k) + 1,
        other != k ==> count_at(counted(m, k), other) == count_at(m, other),
{
}

/// The strength taken from a report or a snapshot is the one that its receiver
/// put in; other frames have none.
pub proof fn strengths_are_those_reported(
    r: crate::protocol::FeatureReport,
    s: crate::protocol::CsiSnapshot,
    kind: u8,
    p: Seq<u8>,
)
    ensures
        rssi_of(
            frame_type::FEATURE_REPORT,
            crate::protocol::payloads::feature_report_bytes(r),
        ) == Some(r.rssi as int),
        rssi_of(
            frame_type::CSI_SNAPSHOT,
            crate::protocol::payloads::csi_snapshot_bytes(s),
        ) == Some(s.rssi as int),
        kind != frame_type::FEATURE_REPORT && kind != frame_type::CSI_SNAPSHOT ==> rssi_of(kind, p)
            is None,
{
    crate::protocol::payloads::feature_report_layout(r);
    crate::protocol::payloads::feature_report_round_trip(r, Seq::empty());
    crate::protocol::payloads::csi_snapshot_layout(s);
    crate::protocol::payloads::csi_snapshot_round_trip(s, Seq::empty());
}

/// The extremes hold every strength that was seen: after one more, they
/// contain it and all that they contained, and reach no further.
pub proof fn extremes_hold_every_strength(before: Agg, after: Agg, v: int, w: int)
    requires
        after.rssi_added(&before, v),
        before.rssi_count > 0,
        before.rssi_min <= before.rssi_max,
    ensures
        after.rssi_min <= v <= after.rssi_max,
        before.rssi_min <= w <= before.rssi_max ==> after.rssi_min <= w <= after.rssi_max,
        after.rssi_min == v || after.rssi_min == before.rssi_min,
        after.rssi_max == v || after.rssi_max == before.rssi_max,
        after.rssi_sum - before.rssi_sum == v,
        after.rssi_count == before.rssi_count + 1,
{
}

/// The row of a report: number, time, kind, source and destination, then what
/// the report says of strength and ratio, and the texts of its motion energy,
/// mean amplitude and dominant frequency, in these columns.
pub proof fn report_rows_name_their_columns(
    h: Header,
    r: crate::protocol::FeatureReport,
    reals: Seq<Seq<char>>,
)
    requires
        h.kind == frame_type::FEATURE_REPORT,
        reals.len() == 3,
    ensures
        csv_row_text(h, crate::protocol::payloads::feature_report_bytes(r), reals) == nat_text(
            h.seq as nat,
        ) + ","@ + nat_text(h.t_us as nat) + ","@ + nat_text(h.kind as nat) + ","@ + nat_text(
            h.src_node as nat,
        ) + ","@ + nat_text(h.dst_node as nat) + ","@ + int_text(r.rssi as int) + ","@ + int_text(
            r.snr as int,
        ) + ","@ + reals[0] + ","@ + reals[1] + ","@ + reals[2],
        csv_reals_of(h.kind, crate::protocol::payloads::feature_report_bytes(r)) == seq![
            CsvReal::Shortest(r.motion_energy),
            CsvReal::Shortest(r.amp_mean),
            CsvReal::Shortest(r.dominant_freq_hz),
        ],
{
    crate::protocol::payloads::feature_report_layout(r);
    crate::protocol::payloads::feature_report_round_trip(r, Seq::empty());
    assert(csv_reals_of(h.kind, crate::protocol::payloads::feature_report_bytes(r)) =~= seq![
        CsvReal::Shortest(r.motion_energy),
        CsvReal::Shortest(r.amp_mean),
        CsvReal::Shortest(r.dominant_freq_hz),
    ]);
}

/// One table row: what a frame type does not carry stays empty.
pub open spec fn csv_row_text(h: Header, p: Seq<u8>, reals: Seq<Seq<char>>) -> Seq<char> {
    let front = nat_text(h.seq as nat) + ","@ + nat_text(h.t_us as nat) + ","@ + nat_text(
        h.kind as nat,
    ) + ","@ + nat_text(h.src_node as nat) + ","@ + nat_text(h.dst_node as nat) + ","@;
    if h.kind == frame_type::FEATURE_REPORT && p.len() >= 79 {
        front + int_text(i16_at(p, 12) as int) + ","@ + int_text(i8_of_u8(p[14]) as int) + ","@
            + reals[0] + ","@ + reals[1] + ","@ + reals[2]
    } else if h.kind == frame_type::CSI_SNAPSHOT && p.len() >= 359 {
        front + int_text(i16_at(p, 4) as int) + ","@ + int_text(i8_of_u8(p[6]) as int) + ",,"@ + (
        if p[13] > 0 { reals[0] } else { Seq::empty() }) + ","@
    } else {
        front + ",,,,"@
    }
}

/// A real number of a table row.
#[derive(Clone, Copy, Debug, PartialEq, Eq, Structural)]
pub enum CsvReal {
    /// The shortest text that reads back as the same number.
    Shortest(F32Bits),
    /// The mean `sum / count` with three decimals.
    Mean3 { sum: u64, count: u64 },
}

/// The reals of a frame's table row, in order.
pub open spec fn csv_reals_of(kind: u8, p: Seq<u8>) -> Seq<CsvReal> {
    if kind == frame_type::FEATURE_REPORT && p.len() >= 79 {
        seq![
            CsvReal::Shortest(u32_at(p, 27)),
            CsvReal::Shortest(u32_at(p, 19)),
            CsvReal::Shortest(u32_at(p, 35)),
        ]
    } else if kind == frame_type::CSI_SNAPSHOT && p.len() >= 359 && p[13] > 0 {
        seq![CsvReal::Mean3 { sum: amp_sum(p) as u64, count: p[13] as u64 }]
    } else {
        Seq::empty()
    }
}

/// The reals of a frame's table row, in order.
pub fn csv_reals(kind: u8, p: &[u8]) -> (out: Vec<CsvReal>)
    ensures
        out@ == csv_reals_of(kind, p@),
        out@.len() == csv_real_count(kind, p@),
{
    let mut out: Vec<CsvReal> = Vec::new();
    if kind == frame_type::FEATURE_REPORT {
        if let Some(fr) = parse_feature_report(p) {
            out.push(CsvReal::Shortest(fr.motion_energy));
            out.push(CsvReal::Shortest(fr.amp_mean));
            out.push(CsvReal::Shortest(fr.dominant_freq_hz));
        }
    } else if kind == frame_type::CSI_SNAPSHOT {
        if let Some(s) = parse_csi_snapshot(p) {
            if s.n_sub > 0 {
                let n: usize = if s.n_sub < 56 {
                    s.n_sub as usize
                } else {
                    56
                };
                let amp = vstd::slice::slice_subrange(s.amp_norm.as_slice(), 0, n);
                assert(amp@ =~= crate::decoder::leading(p@.subrange(239, 295), p@[13] as int));
                out.push(
                    CsvReal::Mean3 { sum: crate::decoder::add_u8(amp), count: s.n_sub as u64 },
                );
            }
        }
    }
    assert(out@ =~= csv_reals_of(kind, p@));
    out
}

/// One table row for a frame, given the texts of its reals. Missing fields
/// stay empty.
pub fn csv_row(hdr: &Header, payload: &[u8], reals: &[String]) -> (out: String)
    requires
        reals@.len() == csv_real_count(hdr.kind, payload@),
    ensures
        out@ == csv_row_text(*hdr, payload@, real_texts(reals@)),
{
    let mut out: String = String::new();
    push_dec(&mut out, hdr.seq as u64);
    assert(out@ =~= nat_text(hdr.seq as nat));
    out.append(",");
    push_dec(&mut out, hdr.t_us);
    out.append(",");
    push_dec(&mut out, hdr.kind as u64);
    out.append(",");
    push_dec(&mut out, hdr.src_node as u64);
    out.append(",");
    push_dec(&mut out, hdr.dst_node as u64);
    out.append(",");
    if hdr.kind == frame_type::FEATURE_REPORT {
        if let Some(fr) = parse_feature_report(payload) {
            push_int(&mut out, fr.rssi as i32);
            out.append(",");
            push_int(&mut out, fr.snr as i32);
            out.append(",");
            out.append(reals[0].as_str());
            out.append(",");
            out.append(reals[1].as_str());
            out.append(",");
            out.append(reals[2].as_str());
            return out;
        }
    } else if hdr.kind == frame_type::CSI_SNAPSHOT {
        if let Some(s) = parse_csi_snapshot(payload) {
            push_int(&mut out, s.rssi as i32);
            out.append(",");
            push_int(&mut out, s.snr as i32);
            out.append(",,");
            if s.n_sub > 0 {
                out.append(reals[0].as_str());
            }
            out.append(",");
            assert(out@ =~= csv_row_text(*hdr, payload@, real_texts(reals@)));
            return out;
        }
    }
    out.append(",,,,");
    out
}

} // verus!

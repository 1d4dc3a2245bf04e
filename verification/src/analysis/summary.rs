//! Text summary of a recording.

use vstd::prelude::*;
use vstd::string::StringExecFns;
use std::collections::HashMap;

use crate::analysis::Agg;
use crate::decoder::names::{at_the_end, between, shorter_front};
use crate::decoder::{kind_name, kind_text, node_name, node_text};
use crate::text::{hex_text, int_text, nat_text, push_dec, push_hex, push_int};
use crate::transport::SequenceTracker;
use crate::wire::F32Bits;

verus! {

/// The renderings of a summary's real numbers.
#[derive(Clone, Debug)]
pub struct SummaryTexts {
    /// Time span in seconds, three digits after the point.
    pub span_s: String,
    /// Frames per second, one digit.
    pub frames_per_s: String,
    /// Mean signal strength, one digit.
    pub rssi_mean: String,
    /// Loss ratios of the sources in increasing order, three digits.
    pub ratios: Vec<String>,
    pub motion_min: String,
    pub motion_max: String,
    pub motion_mean: String,
    /// The first motion energies, ten at most.
    pub motion_values: Vec<String>,
    pub dominant_min: String,
    pub dominant_max: String,
    pub dominant_mean: String,
    pub dominant_last: String,
}

/// Lines as values.
pub open spec fn lines_of(v: Seq<String>) -> Seq<Seq<char>> {
    v.map_values(|s: String| s@)
}

/// The line of one frame type.
pub open spec fn kind_line(k: u8, count: u64) -> Seq<char> {
    "  "@ + kind_text(k) + " (0x"@ + hex_text(k as nat, 2) + "): "@ + nat_text(count as nat)
}

/// The line of one source.
pub open spec fn source_line(s: u8, count: u64) -> Seq<char> {
    "  "@ + node_text(s) + " ("@ + nat_text(s as nat) + "): "@ + nat_text(count as nat)
}

/// The loss line of one source.
pub open spec fn loss_line(s: u8, t: SequenceTracker, ratio: Seq<char>) -> Seq<char> {
    "  "@ + node_text(s) + " ("@ + nat_text(s as nat) + "): lost="@ + nat_text(t@.lost) + " total="@
        + nat_text(t@.total) + " ratio="@ + ratio + " gaps="@ + nat_text(t@.gaps) + " resyncs="@
        + nat_text(t@.resyncs)
}

/// The lines of the frame types below `k`, in increasing order.
pub open spec fn kind_lines(m: Map<u8, u64>, k: nat) -> Seq<Seq<char>>
    decreases k,
{
    if k == 0 {
        Seq::empty()
    } else {
        let front = kind_lines(m, (k - 1) as nat);
        let key = (k - 1) as u8;
        if m.contains_key(key) {
            front.push(kind_line(key, m[key]))
        } else {
            front
        }
    }
}

/// The lines of the sources below `k`, in increasing order.
pub open spec fn source_lines(m: Map<u8, u64>, k: nat) -> Seq<Seq<char>>
    decreases k,
{
    if k == 0 {
        Seq::empty()
    } else {
        let front = source_lines(m, (k - 1) as nat);
        let key = (k - 1) as u8;
        if m.contains_key(key) {
            front.push(source_line(key, m[key]))
        } else {
            front
        }
    }
}

/// Every kind and every source that was counted has its line, with its own
/// count.
pub proof fn every_count_has_its_line(m: Map<u8, u64>, key: u8, k: nat)
    requires
        m.contains_key(key),
        key < k <= 256,
    ensures
        kind_lines(m, k).contains(kind_line(key, m[key])),
        source_lines(m, k).contains(source_line(key, m[key])),
    decreases k,
{
    let (a, b) = (kind_lines(m, (k - 1) as nat), source_lines(m, (k - 1) as nat));
    if key == k - 1 {
        assert(kind_lines(m, k).last() == kind_line(key, m[key]));
        assert(source_lines(m, k).last() == source_line(key, m[key]));
    } else {
        every_count_has_its_line(m, key, (k - 1) as nat);
        let i = choose|i: int| 0 <= i < a.len() && a[i] == kind_line(key, m[key]);
        assert(kind_lines(m, k)[i] == a[i]);
        let j = choose|j: int| 0 <= j < b.len() && b[j] == source_line(key, m[key]);
        assert(source_lines(m, k)[j] == b[j]);
    }
}

/// The loss lines of the sources below `k`, in increasing order.
pub open spec fn loss_lines(m: Map<u8, SequenceTracker>, ratios: Seq<String>, k: nat) -> Seq<
    Seq<char>,
>
    decreases k,
{
    if k == 0 {
        Seq::empty()
    } else {
        let front = loss_lines(m, ratios, (k - 1) as nat);
        let key = (k - 1) as u8;
        if m.contains_key(key) {
            front.push(loss_line(key, m[key], ratios[front.len() as int]@))
        } else {
            front
        }
    }
}

/// The lines before the counts.
pub open spec fn head_lines(a: Agg, t: SummaryTexts) -> Seq<Seq<char>> {
    let spans = match (a.first_t, a.last_t) {
        (Some(f), Some(l)) => l > f,
        _ => false,
    };
    seq![
        "analysis of radar capture"@,
        "total frames: "@ + nat_text(a.total as nat),
        "time span: "@ + t.span_s@ + " s"@,
        if spans {
            "frames/sec: "@ + t.frames_per_s@
        } else {
            "frames/sec: N/A (single timestamp)"@
        },
        "crc/version errors: "@ + nat_text(a.crc_errors as nat),
        "truncated frames: "@ + nat_text(a.truncated as nat),
        "per-kind counts:"@,
    ]
}

/// The line on signal strengths.
pub open spec fn rssi_line(a: Agg, t: SummaryTexts) -> Seq<char> {
    if a.rssi_count > 0 {
        "rssi (dBm): "@ + nat_text(a.rssi_count as nat) + " sample(s) min="@ + int_text(
            a.rssi_min as int,
        ) + " max="@ + int_text(a.rssi_max as int) + " mean="@ + t.rssi_mean@
    } else {
        "rssi (dBm): no samples"@
    }
}

/// The line of one motion energy.
pub open spec fn sample_line(i: nat, t_us: u64, value: Seq<char>) -> Seq<char> {
    "    ["@ + nat_text(i) + "] "@ + nat_text(t_us as nat) + " "@ + value
}

/// The lines of the first `n` motion energies.
pub open spec fn sample_lines(motion: Seq<(u64, F32Bits)>, values: Seq<String>, n: nat) -> Seq<
    Seq<char>,
>
    decreases n,
{
    if n == 0 {
        Seq::empty()
    } else {
        sample_lines(motion, values, (n - 1) as nat).push(
            sample_line((n - 1) as nat, motion[n - 1].0, values[n - 1]@),
        )
    }
}

/// How many motion energies are listed.
pub open spec fn shown(n: nat) -> nat {
    if n < 10 {
        n
    } else {
        10
    }
}

/// The lines on motion energies.
pub open spec fn motion_lines(a: Agg, t: SummaryTexts) -> Seq<Seq<char>> {
    let count = "motion_energy (feature reports): "@ + nat_text(a.motion@.len()) + " sample(s)"@;
    if a.motion@.len() == 0 {
        seq![count]
    } else {
        seq![
            count,
            "  min="@ + t.motion_min@ + " max="@ + t.motion_max@ + " mean="@ + t.motion_mean@,
            "  first 10 samples (t_us, value):"@,
        ] + sample_lines(a.motion@, t.motion_values@, shown(a.motion@.len()))
    }
}

/// The lines on dominant frequencies.
pub open spec fn dominant_lines(a: Agg, t: SummaryTexts) -> Seq<Seq<char>> {
    let count = "dominant_freq_hz (feature reports): "@ + nat_text(a.dominant@.len())
        + " sample(s)"@;
    if a.dominant@.len() == 0 {
        seq![count]
    } else {
        seq![
            count,
            "  min="@ + t.dominant_min@ + " max="@ + t.dominant_max@ + " mean="@ + t.dominant_mean@
                + " last="@ + t.dominant_last@,
        ]
    }
}

/// The lines of a summary.
pub open spec fn summary_lines(a: Agg, t: SummaryTexts) -> Seq<Seq<char>> {
    head_lines(a, t) + kind_lines(a.kinds@, 256) + seq!["per-source counts:"@] + source_lines(
        a.per_src@,
        256,
    ) + seq![rssi_line(a, t), "packet loss estimate by seq gaps (per source):"@] + loss_lines(
        a.trackers@,
        t.ratios@,
        256,
    ) + motion_lines(a, t) + dominant_lines(a, t)
}

/// The texts are as many as the numbers to render.
pub open spec fn texts_suffice(a: Agg, t: SummaryTexts) -> bool {
    &&& t.ratios@.len() >= loss_lines(a.trackers@, t.ratios@, 256).len()
    &&& t.motion_values@.len() >= shown(a.motion@.len())
}

fn put(lines: &mut Vec<String>, s: String)
    ensures
        lines_of(final(lines)@) == lines_of(old(lines)@).push(s@),
{
    let ghost before = lines@;
    lines.push(s);
    assert(lines_of(lines@) =~= lines_of(before).push(s@));
}

fn counted_text(head: &str, n: u64) -> (s: String)
    ensures
        s@ == head@ + nat_text(n as nat),
{
    let mut s = head.to_owned();
    push_dec(&mut s, n);
    s
}

fn put_head(lines: &mut Vec<String>, a: &Agg, t: &SummaryTexts)
    ensures
        lines_of(final(lines)@) == lines_of(old(lines)@) + head_lines(*a, *t),
{
    let ghost before = lines_of(lines@);
    put(lines, "analysis of radar capture".to_owned());
    put(lines, counted_text("total frames: ", a.total));
    let mut span = "time span: ".to_owned();
    span.append(t.span_s.as_str());
    span.append(" s");
    put(lines, span);
    match a.span_us() {
        Some(_) => {
            let mut rate = "frames/sec: ".to_owned();
            rate.append(t.frames_per_s.as_str());
            put(lines, rate);
        },
        None => put(lines, "frames/sec: N/A (single timestamp)".to_owned()),
    }
    put(lines, counted_text("crc/version errors: ", a.crc_errors));
    put(lines, counted_text("truncated frames: ", a.truncated));
    put(lines, "per-kind counts:".to_owned());
    assert(lines_of(lines@) =~= before + head_lines(*a, *t));
}

fn put_kinds(lines: &mut Vec<String>, m: &HashMap<u8, u64>)
    ensures
        lines_of(final(lines)@) == lines_of(old(lines)@) + kind_lines(m@, 256),
{
    broadcast use vstd::std_specs::hash::group_hash_axioms;

    let ghost before = lines_of(lines@);
    let mut k: u16 = 0;
    assert(lines_of(lines@) =~= before + kind_lines(m@, 0));
    while k < 256
        invariant
            k <= 256,
            lines_of(lines@) == before + kind_lines(m@, k as nat),
        decreases 256 - k,
    {
        let key: u8 = k as u8;
        match m.get(&key) {
            Some(c) => {
                let mut s = "  ".to_owned();
                s.append(kind_name(key));
                s.append(" (0x");
                push_hex(&mut s, key as u32, 2);
                s.append("): ");
                push_dec(&mut s, *c);
                put(lines, s);
            },
            None => {},
        }
        k += 1;
        assert(lines_of(lines@) =~= before + kind_lines(m@, k as nat));
    }
}

fn put_sources(lines: &mut Vec<String>, m: &HashMap<u8, u64>)
    ensures
        lines_of(final(lines)@) == lines_of(old(lines)@) + source_lines(m@, 256),
{
    broadcast use vstd::std_specs::hash::group_hash_axioms;

    let ghost before = lines_of(lines@);
    let mut k: u16 = 0;
    assert(lines_of(lines@) =~= before + source_lines(m@, 0));
    while k < 256
        invariant
            k <= 256,
            lines_of(lines@) == before + source_lines(m@, k as nat),
        decreases 256 - k,
    {
        let key: u8 = k as u8;
        match m.get(&key) {
            Some(c) => {
                let mut s = "  ".to_owned();
                s.append(node_name(key));
                s.append(" (");
                push_dec(&mut s, key as u64);
                s.append("): ");
                push_dec(&mut s, *c);
                put(lines, s);
            },
            None => {},
        }
        k += 1;
        assert(lines_of(lines@) =~= before + source_lines(m@, k as nat));
    }
}

proof fn loss_lines_grow(m: Map<u8, SequenceTracker>, ratios: Seq<String>, j: nat, k: nat)
    requires
        j <= k,
    ensures
        loss_lines(m, ratios, j).len() <= loss_lines(m, ratios, k).len(),
    decreases k,
{
    if j < k {
        loss_lines_grow(m, ratios, j, (k - 1) as nat);
    }
}

fn put_losses(lines: &mut Vec<String>, m: &HashMap<u8, SequenceTracker>, ratios: &Vec<String>)
    requires
        ratios@.len() >= loss_lines(m@, ratios@, 256).len(),
    ensures
        lines_of(final(lines)@) == lines_of(old(lines)@) + loss_lines(m@, ratios@, 256),
{
    broadcast use vstd::std_specs::hash::group_hash_axioms;

    let ghost before = lines_of(lines@);
    let mut k: u16 = 0;
    let mut seen: usize = 0;
    assert(lines_of(lines@) =~= before + loss_lines(m@, ratios@, 0));
    while k < 256
        invariant
            k <= 256,
            ratios@.len() >= loss_lines(m@, ratios@, 256).len(),
            seen == loss_lines(m@, ratios@, k as nat).len(),
            seen <= ratios@.len(),
            lines_of(lines@) == before + loss_lines(m@, ratios@, k as nat),
        decreases 256 - k,
    {
        let key: u8 = k as u8;
        proof {
            loss_lines_grow(m@, ratios@, (k + 1) as nat, 256);
        }
        match m.get(&key) {
            Some(t) => {
                let mut s = "  ".to_owned();
                s.append(node_name(key));
                s.append(" (");
                push_dec(&mut s, key as u64);
                s.append("): lost=");
                push_dec(&mut s, t.lost());
                s.append(" total=");
                push_dec(&mut s, t.total());
                s.append(" ratio=");
                s.append(ratios[seen].as_str());
                s.append(" gaps=");
                push_dec(&mut s, t.gaps());
                s.append(" resyncs=");
                push_dec(&mut s, t.resyncs());
                put(lines, s);
                assert(ratios@.len() == ratios.len());
                seen += 1;
            },
            None => {},
        }
        k += 1;
        assert(lines_of(lines@) =~= before + loss_lines(m@, ratios@, k as nat));
    }
}

fn put_rssi(lines: &mut Vec<String>, a: &Agg, t: &SummaryTexts)
    ensures
        lines_of(final(lines)@) == lines_of(old(lines)@).push(rssi_line(*a, *t)),
{
    if a.rssi_count > 0 {
        let mut s = counted_text("rssi (dBm): ", a.rssi_count);
        s.append(" sample(s) min=");
        push_int(&mut s, a.rssi_min);
        s.append(" max=");
        push_int(&mut s, a.rssi_max);
        s.append(" mean=");
        s.append(t.rssi_mean.as_str());
        put(lines, s);
    } else {
        put(lines, "rssi (dBm): no samples".to_owned());
    }
}

fn put_motion(lines: &mut Vec<String>, a: &Agg, t: &SummaryTexts)
    requires
        t.motion_values@.len() >= shown(a.motion@.len()),
    ensures
        lines_of(final(lines)@) == lines_of(old(lines)@) + motion_lines(*a, *t),
{
    let ghost before = lines_of(lines@);
    let mut s = counted_text("motion_energy (feature reports): ", a.motion.len() as u64);
    s.append(" sample(s)");
    put(lines, s);
    if a.motion.len() == 0 {
        assert(lines_of(lines@) =~= before + motion_lines(*a, *t));
        return;
    }
    let mut m = "  min=".to_owned();
    m.append(t.motion_min.as_str());
    m.append(" max=");
    m.append(t.motion_max.as_str());
    m.append(" mean=");
    m.append(t.motion_mean.as_str());
    put(lines, m);
    put(lines, "  first 10 samples (t_us, value):".to_owned());
    let ghost head = lines_of(lines@);
    let n: usize = if a.motion.len() < 10 {
        a.motion.len()
    } else {
        10
    };
    let mut i: usize = 0;
    assert(head =~= head + sample_lines(a.motion@, t.motion_values@, 0));
    while i < n
        invariant
            i <= n,
            n == shown(a.motion@.len()),
            n <= a.motion@.len(),
            t.motion_values@.len() >= n,
            lines_of(lines@) == head + sample_lines(a.motion@, t.motion_values@, i as nat),
        decreases n - i,
    {
        let mut r = counted_text("    [", i as u64);
        r.append("] ");
        push_dec(&mut r, a.motion[i].0);
        r.append(" ");
        r.append(t.motion_values[i].as_str());
        put(lines, r);
        i += 1;
        assert(lines_of(lines@) =~= head + sample_lines(a.motion@, t.motion_values@, i as nat));
    }
    assert(lines_of(lines@) =~= before + motion_lines(*a, *t));
}

fn put_dominant(lines: &mut Vec<String>, a: &Agg, t: &SummaryTexts)
    ensures
        lines_of(final(lines)@) == lines_of(old(lines)@) + dominant_lines(*a, *t),
{
    let ghost before = lines_of(lines@);
    let mut s = counted_text("dominant_freq_hz (feature reports): ", a.dominant.len() as u64);
    s.append(" sample(s)");
    put(lines, s);
    if a.dominant.len() > 0 {
        let mut m = "  min=".to_owned();
        m.append(t.dominant_min.as_str());
        m.append(" max=");
        m.append(t.dominant_max.as_str());
        m.append(" mean=");
        m.append(t.dominant_mean.as_str());
        m.append(" last=");
        m.append(t.dominant_last.as_str());
        put(lines, m);
    }
    assert(lines_of(lines@) =~= before + dominant_lines(*a, *t));
}

/// The lines of a summary.
pub fn print_summary(a: &Agg, t: &SummaryTexts) -> (lines: Vec<String>)
    requires
        texts_suffice(*a, *t),
    ensures
        lines_of(lines@) == summary_lines(*a, *t),
{
    let mut lines: Vec<String> = Vec::new();
    assert(lines_of(lines@) =~= Seq::empty());
    put_head(&mut lines, a, t);
    assert(lines_of(lines@) =~= head_lines(*a, *t));
    put_kinds(&mut lines, &a.kinds);
    let ghost l1 = lines_of(lines@);
    put(&mut lines, "per-source counts:".to_owned());
    assert(lines_of(lines@) =~= l1 + seq!["per-source counts:"@]);
    put_sources(&mut lines, &a.per_src);
    let ghost l2 = lines_of(lines@);
    put_rssi(&mut lines, a, t);
    put(&mut lines, "packet loss estimate by seq gaps (per source):".to_owned());
    assert(lines_of(lines@) =~= l2 + seq![
        rssi_line(*a, *t),
        "packet loss estimate by seq gaps (per source):"@,
    ]);
    put_losses(&mut lines, &a.trackers, &t.ratios);
    put_motion(&mut lines, a, t);
    put_dominant(&mut lines, a, t);
    lines
}

/// A line on losses shows each count of the source's tracker under its name.
pub proof fn loss_line_names_its_values(s: u8, t: SequenceTracker, ratio: Seq<char>)
    ensures
        between(loss_line(s, t, ratio), "  "@, node_text(s), " ("@),
        between(loss_line(s, t, ratio), " ("@, nat_text(s as nat), "): lost="@),
        between(loss_line(s, t, ratio), "): lost="@, nat_text(t@.lost), " total="@),
        between(loss_line(s, t, ratio), " total="@, nat_text(t@.total), " ratio="@),
        between(loss_line(s, t, ratio), " ratio="@, ratio, " gaps="@),
        between(loss_line(s, t, ratio), " gaps="@, nat_text(t@.gaps), " resyncs="@),
        at_the_end(loss_line(s, t, ratio), " resyncs="@, nat_text(t@.resyncs)),
{
    let p0 = Seq::<char>::empty();
    let p1 = "  "@;
    let p2 = p1 + node_text(s);
    let p3 = p2 + " ("@;
    let p4 = p3 + nat_text(s as nat);
    let p5 = p4 + "): lost="@;
    let p6 = p5 + nat_text(t@.lost);
    let p7 = p6 + " total="@;
    let p8 = p7 + nat_text(t@.total);
    let p9 = p8 + " ratio="@;
    let p10 = p9 + ratio;
    let p11 = p10 + " gaps="@;
    let p12 = p11 + nat_text(t@.gaps);
    let p13 = p12 + " resyncs="@;
    let p14 = p13 + nat_text(t@.resyncs);
    assert(p14 == loss_line(s, t, ratio));
    assert(p14.is_prefix_of(p14));
    shorter_front(p14, p13, nat_text(t@.resyncs));
    shorter_front(p14, p12, " resyncs="@);
    shorter_front(p14, p11, nat_text(t@.gaps));
    shorter_front(p14, p10, " gaps="@);
    shorter_front(p14, p9, ratio);
    shorter_front(p14, p8, " ratio="@);
    shorter_front(p14, p7, nat_text(t@.total));
    shorter_front(p14, p6, " total="@);
    shorter_front(p14, p5, nat_text(t@.lost));
    shorter_front(p14, p4, "): lost="@);
    shorter_front(p14, p3, nat_text(s as nat));
    shorter_front(p14, p2, " ("@);
    shorter_front(p14, p1, node_text(s));
    assert(p0 + "  "@ =~= p1);
    assert((p0 + "  "@ + node_text(s) + " ("@).is_prefix_of(p14));
    assert((p2 + " ("@ + nat_text(s as nat) + "): lost="@).is_prefix_of(p14));
    assert((p4 + "): lost="@ + nat_text(t@.lost) + " total="@).is_prefix_of(p14));
    assert((p6 + " total="@ + nat_text(t@.total) + " ratio="@).is_prefix_of(p14));
    assert((p8 + " ratio="@ + ratio + " gaps="@).is_prefix_of(p14));
    assert((p10 + " gaps="@ + nat_text(t@.gaps) + " resyncs="@).is_prefix_of(p14));
    assert((p12 + " resyncs="@ + nat_text(t@.resyncs)) == p14);
}

/// The line on strengths shows each figure under its name.
pub proof fn rssi_line_names_its_values(a: Agg, t: SummaryTexts)
    requires
        a.rssi_count > 0,
    ensures
        between(rssi_line(a, t), "rssi (dBm): "@, nat_text(a.rssi_count as nat), " sample(s) min="@),
        between(rssi_line(a, t), " sample(s) min="@, int_text(a.rssi_min as int), " max="@),
        between(rssi_line(a, t), " max="@, int_text(a.rssi_max as int), " mean="@),
        at_the_end(rssi_line(a, t), " mean="@, t.rssi_mean@),
{
    let p0 = Seq::<char>::empty();
    let p1 = "rssi (dBm): "@;
    let p2 = p1 + nat_text(a.rssi_count as nat);
    let p3 = p2 + " sample(s) min="@;
    let p4 = p3 + int_text(a.rssi_min as int);
    let p5 = p4 + " max="@;
    let p6 = p5 + int_text(a.rssi_max as int);
    let p7 = p6 + " mean="@;
    let p8 = p7 + t.rssi_mean@;
    assert(p8 == rssi_line(a, t));
    assert(p8.is_prefix_of(p8));
    shorter_front(p8, p7, t.rssi_mean@);
    shorter_front(p8, p6, " mean="@);
    shorter_front(p8, p5, int_text(a.rssi_max as int));
    shorter_front(p8, p4, " max="@);
    shorter_front(p8, p3, int_text(a.rssi_min as int));
    shorter_front(p8, p2, " sample(s) min="@);
    shorter_front(p8, p1, nat_text(a.rssi_count as nat));
    assert(p0 + "rssi (dBm): "@ =~= p1);
    assert((p0 + "rssi (dBm): "@ + nat_text(a.rssi_count as nat) + " sample(s) min="@).is_prefix_of(p8));
    assert((p2 + " sample(s) min="@ + int_text(a.rssi_min as int) + " max="@).is_prefix_of(p8));
    assert((p4 + " max="@ + int_text(a.rssi_max as int) + " mean="@).is_prefix_of(p8));
    assert((p6 + " mean="@ + t.rssi_mean@) == p8);
}

/// A line on a kind shows its name, its number and its count.
pub proof fn kind_line_names_its_values(k: u8, count: u64)
    ensures
        between(kind_line(k, count), "  "@, kind_text(k), " (0x"@),
        between(kind_line(k, count), " (0x"@, hex_text(k as nat, 2), "): "@),
        at_the_end(kind_line(k, count), "): "@, nat_text(count as nat)),
{
    let p0 = Seq::<char>::empty();
    let p1 = "  "@;
    let p2 = p1 + kind_text(k);
    let p3 = p2 + " (0x"@;
    let p4 = p3 + hex_text(k as nat, 2);
    let p5 = p4 + "): "@;
    let p6 = p5 + nat_text(count as nat);
    assert(p6 == kind_line(k, count));
    assert(p6.is_prefix_of(p6));
    shorter_front(p6, p5, nat_text(count as nat));
    shorter_front(p6, p4, "): "@);
    shorter_front(p6, p3, hex_text(k as nat, 2));
    shorter_front(p6, p2, " (0x"@);
    shorter_front(p6, p1, kind_text(k));
    assert(p0 + "  "@ =~= p1);
    assert((p0 + "  "@ + kind_text(k) + " (0x"@).is_prefix_of(p6));
    assert((p2 + " (0x"@ + hex_text(k as nat, 2) + "): "@).is_prefix_of(p6));
    assert((p4 + "): "@ + nat_text(count as nat)) == p6);
}

/// A line on a source shows its name, its number and its count.
pub proof fn source_line_names_its_values(s: u8, count: u64)
    ensures
        between(source_line(s, count), "  "@, node_text(s), " ("@),
        between(source_line(s, count), " ("@, nat_text(s as nat), "): "@),
        at_the_end(source_line(s, count), "): "@, nat_text(count as nat)),
{
    let p0 = Seq::<char>::empty();
    let p1 = "  "@;
    let p2 = p1 + node_text(s);
    let p3 = p2 + " ("@;
    let p4 = p3 + nat_text(s as nat);
    let p5 = p4 + "): "@;
    let p6 = p5 + nat_text(count as nat);
    assert(p6 == source_line(s, count));
    assert(p6.is_prefix_of(p6));
    shorter_front(p6, p5, nat_text(count as nat));
    shorter_front(p6, p4, "): "@);
    shorter_front(p6, p3, nat_text(s as nat));
    shorter_front(p6, p2, " ("@);
    shorter_front(p6, p1, node_text(s));
    assert(p0 + "  "@ =~= p1);
    assert((p0 + "  "@ + node_text(s) + " ("@).is_prefix_of(p6));
    assert((p2 + " ("@ + nat_text(s as nat) + "): "@).is_prefix_of(p6));
    assert((p4 + "): "@ + nat_text(count as nat)) == p6);
}

/// A line on a sample shows its place, its time and its value.
pub proof fn sample_line_names_its_values(i: nat, t_us: u64, value: Seq<char>)
    ensures
        between(sample_line(i, t_us, value), "    ["@, nat_text(i), "] "@),
        between(sample_line(i, t_us, value), "] "@, nat_text(t_us as nat), " "@),
        at_the_end(sample_line(i, t_us, value), " "@, value),
{
    let p0 = Seq::<char>::empty();
    let p1 = "    ["@;
    let p2 = p1 + nat_text(i);
    let p3 = p2 + "] "@;
    let p4 = p3 + nat_text(t_us as nat);
    let p5 = p4 + " "@;
    let p6 = p5 + value;
    assert(p6 == sample_line(i, t_us, value));
    assert(p6.is_prefix_of(p6));
    shorter_front(p6, p5, value);
    shorter_front(p6, p4, " "@);
    shorter_front(p6, p3, nat_text(t_us as nat));
    shorter_front(p6, p2, "] "@);
    shorter_front(p6, p1, nat_text(i));
    assert(p0 + "    ["@ =~= p1);
    assert((p0 + "    ["@ + nat_text(i) + "] "@).is_prefix_of(p6));
    assert((p2 + "] "@ + nat_text(t_us as nat) + " "@).is_prefix_of(p6));
    assert((p4 + " "@ + value) == p6);
}

} // verus!

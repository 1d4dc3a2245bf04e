//! Rendering of captured frames as text and as JSON.
//!
//! Real-valued fields are carried as bit patterns. The functions that render a
//! payload take the text of its reals, in the order in which the matching
//! `*_reals` function lists them, so that the caller chooses how a real number
//! is printed.

use vstd::prelude::*;
use vstd::string::StringExecFns;

use crate::capture::{reason_text, BadReason, Event, EventView};
use crate::protocol::payloads::{
    cal_cmd_at, cal_resp_at, parse_cal_cmd, parse_cal_resp, parse_csi_snapshot,
    parse_feature_report, parse_status, status_at,
};
use crate::protocol::{
    data_flags, frame_type, node, report_flags, CsiSnapshot, FeatureReport, Header,
};
use crate::text::{hex_text, int_text, joined, nat_text, push_dec, push_hex, push_int};
use crate::wire::{i16_at, i8_of_u8, u32_at, F32Bits};

pub mod names;

verus! {

/// A real number to print and how.
#[derive(Clone, Copy, Debug, PartialEq, Eq, Structural)]
pub enum Real {
    /// The shortest text that reads back as the same number.
    Shortest(F32Bits),
    /// Three decimals.
    Fixed3(F32Bits),
    /// One decimal.
    Fixed1(F32Bits),
    /// The mean `sum / count`, or zero without samples, with one decimal.
    Mean1 { sum: u64, count: u64 },
}

/// The name of a frame type.
pub open spec fn kind_text(k: u8) -> Seq<char> {
    if k == frame_type::DATA_FRAME {
        "DATA"@
    } else if k == frame_type::FEATURE_REPORT {
        "FEATURE_REPORT"@
    } else if k == frame_type::CAL_CMD {
        "CAL_CMD"@
    } else if k == frame_type::CAL_RESP {
        "CAL_RESP"@
    } else if k == frame_type::STATUS {
        "STATUS"@
    } else if k == frame_type::CSI_SNAPSHOT {
        "CSI_SNAPSHOT"@
    } else if k == frame_type::CP_MESSAGE {
        "CP_MESSAGE"@
    } else {
        "UNKNOWN"@
    }
}

/// The frame types of this protocol.
pub open spec fn known_kind(k: u8) -> bool {
    ||| k == frame_type::DATA_FRAME
    ||| k == frame_type::FEATURE_REPORT
    ||| k == frame_type::CAL_CMD
    ||| k == frame_type::CAL_RESP
    ||| k == frame_type::STATUS
    ||| k == frame_type::CSI_SNAPSHOT
    ||| k == frame_type::CP_MESSAGE
}

/// The name of a node.
pub open spec fn node_text(n: u8) -> Seq<char> {
    if n == node::TX {
        "TX"@
    } else if n == node::RX1 {
        "RX1"@
    } else if n == node::RX2 {
        "RX2"@
    } else if n == node::RP2350 {
        "RP2350"@
    } else {
        "?"@
    }
}

/// Human-readable frame type.
pub fn kind_name(k: u8) -> (s: &'static str)
    ensures
        s@ == kind_text(k),
{
    if k == frame_type::DATA_FRAME {
        "DATA"
    } else if k == frame_type::FEATURE_REPORT {
        "FEATURE_REPORT"
    } else if k == frame_type::CAL_CMD {
        "CAL_CMD"
    } else if k == frame_type::CAL_RESP {
        "CAL_RESP"
    } else if k == frame_type::STATUS {
        "STATUS"
    } else if k == frame_type::CSI_SNAPSHOT {
        "CSI_SNAPSHOT"
    } else if k == frame_type::CP_MESSAGE {
        "CP_MESSAGE"
    } else {
        "UNKNOWN"
    }
}

/// Whether a frame type belongs to this protocol.
pub fn is_known_kind(k: u8) -> (known: bool)
    ensures
        known == known_kind(k),
{
    k == frame_type::DATA_FRAME || k == frame_type::FEATURE_REPORT || k == frame_type::CAL_CMD || k
        == frame_type::CAL_RESP || k == frame_type::STATUS || k == frame_type::CSI_SNAPSHOT || k
        == frame_type::CP_MESSAGE
}

/// Human-readable node.
pub fn node_name(n: u8) -> (s: &'static str)
    ensures
        s@ == node_text(n),
{
    if n == node::TX {
        "TX"
    } else if n == node::RX1 {
        "RX1"
    } else if n == node::RX2 {
        "RX2"
    } else if n == node::RP2350 {
        "RP2350"
    } else {
        "?"
    }
}

/// The decimal texts of bytes.
pub open spec fn u8_texts(v: Seq<u8>) -> Seq<Seq<char>> {
    v.map_values(|x: u8| nat_text(x as nat))
}

/// The decimal texts of signed numbers.
pub open spec fn i16_texts(v: Seq<i16>) -> Seq<Seq<char>> {
    v.map_values(|x: i16| int_text(x as int))
}

/// The texts of reals.
pub open spec fn real_texts(v: Seq<String>) -> Seq<Seq<char>> {
    v.map_values(|x: String| x@)
}

/// A bracketed list.
pub open spec fn list_text(parts: Seq<Seq<char>>, sep: Seq<char>) -> Seq<char> {
    "["@ + joined(parts, sep) + "]"@
}

/// The leading part of `s`, at most `n` long.
pub open spec fn leading<T>(s: Seq<T>, n: int) -> Seq<T> {
    s.subrange(0, if n < s.len() { n } else { s.len() as int })
}

/// The sum of bytes.
pub open spec fn sum_u8(v: Seq<u8>) -> nat
    decreases v.len(),
{
    if v.len() == 0 {
        0
    } else {
        sum_u8(v.drop_last()) + v.last() as nat
    }
}

/// The sum of magnitudes.
pub open spec fn sum_abs(v: Seq<i16>) -> nat
    decreases v.len(),
{
    if v.len() == 0 {
        0
    } else {
        sum_abs(v.drop_last()) + (if v.last() < 0 { -v.last() } else { v.last() as int }) as nat
    }
}

/// Sums count every value once, whatever its sign.
pub proof fn sums_count_every_value(a: Seq<u8>, x: u8, b: Seq<i16>, y: i16)
    ensures
        sum_u8(a.push(x)) == sum_u8(a) + x,
        sum_abs(b.push(y)) == sum_abs(b) + if y >= 0 {
            y as int
        } else {
            -y
        },
        sum_u8(Seq::empty()) == 0,
        sum_abs(Seq::empty()) == 0,
{
    assert(a.push(x).drop_last() =~= a);
    assert(b.push(y).drop_last() =~= b);
}

/// What is leading of a sequence are its first values, as many as there are.
pub proof fn leading_values_come_first<T>(s: Seq<T>, n: int, i: int)
    requires
        n >= 0,
    ensures
        leading(s, n).len() <= n && leading(s, n).len() <= s.len(),
        leading(s, n).len() == n || leading(s, n).len() == s.len(),
        0 <= i < leading(s, n).len() ==> leading(s, n)[i] == s[i],
{
}

/// The mean of a sum over so many samples.
pub open spec fn mean_of(sum: nat, count: nat) -> Real {
    Real::Mean1 { sum: sum as u64, count: count as u64 }
}

proof fn joined_step(parts: Seq<Seq<char>>, sep: Seq<char>, last: Seq<char>)
    ensures
        joined(parts.push(last), sep) == if parts.len() == 0 {
            last
        } else {
            joined(parts, sep) + sep + last
        },
{
    assert(parts.push(last).drop_last() =~= parts);
}

/// Bytes as a bracketed list.
fn u8_list(vals: &[u8], sep: &str) -> (out: String)
    ensures
        out@ == list_text(u8_texts(vals@), sep@),
{
    let mut out: String = "[".to_owned();
    let mut i: usize = 0;
    assert("["@ =~= "["@ + joined(u8_texts(vals@.take(0)), sep@));
    while i < vals.len()
        invariant
            i <= vals@.len(),
            out@ == "["@ + joined(u8_texts(vals@.take(i as int)), sep@),
        decreases vals@.len() - i,
    {
        let ghost before = u8_texts(vals@.take(i as int));
        if i > 0 {
            out.append(sep);
        }
        push_dec(&mut out, vals[i] as u64);
        proof {
            joined_step(before, sep@, nat_text(vals@[i as int] as nat));
            assert(u8_texts(vals@.take(i + 1)) =~= before.push(nat_text(vals@[i as int] as nat)));
            assert(out@ =~= "["@ + joined(u8_texts(vals@.take(i + 1)), sep@));
        }
        i += 1;
    }
    assert(vals@.take(vals@.len() as int) =~= vals@);
    out.append("]");
    out
}

/// Signed numbers as a bracketed list.
fn i16_list(vals: &[i16], sep: &str) -> (out: String)
    ensures
        out@ == list_text(i16_texts(vals@), sep@),
{
    let mut out: String = "[".to_owned();
    let mut i: usize = 0;
    assert("["@ =~= "["@ + joined(i16_texts(vals@.take(0)), sep@));
    while i < vals.len()
        invariant
            i <= vals@.len(),
            out@ == "["@ + joined(i16_texts(vals@.take(i as int)), sep@),
        decreases vals@.len() - i,
    {
        let ghost before = i16_texts(vals@.take(i as int));
        if i > 0 {
            out.append(sep);
        }
        push_int(&mut out, vals[i] as i32);
        proof {
            joined_step(before, sep@, int_text(vals@[i as int] as int));
            assert(i16_texts(vals@.take(i + 1)) =~= before.push(int_text(vals@[i as int] as int)));
            assert(out@ =~= "["@ + joined(i16_texts(vals@.take(i + 1)), sep@));
        }
        i += 1;
    }
    assert(vals@.take(vals@.len() as int) =~= vals@);
    out.append("]");
    out
}

/// Texts as a bracketed list.
fn text_list(vals: &[String], sep: &str) -> (out: String)
    ensures
        out@ == list_text(real_texts(vals@), sep@),
{
    let mut out: String = "[".to_owned();
    let mut i: usize = 0;
    assert("["@ =~= "["@ + joined(real_texts(vals@.take(0)), sep@));
    while i < vals.len()
        invariant
            i <= vals@.len(),
            out@ == "["@ + joined(real_texts(vals@.take(i as int)), sep@),
        decreases vals@.len() - i,
    {
        let ghost before = real_texts(vals@.take(i as int));
        if i > 0 {
            out.append(sep);
        }
        out.append(vals[i].as_str());
        proof {
            joined_step(before, sep@, vals@[i as int]@);
            assert(real_texts(vals@.take(i + 1)) =~= before.push(vals@[i as int]@));
            assert(out@ =~= "["@ + joined(real_texts(vals@.take(i + 1)), sep@));
        }
        i += 1;
    }
    assert(vals@.take(vals@.len() as int) =~= vals@);
    out.append("]");
    out
}

/// Bytes as a JSON array.
pub fn json_u8_array(vals: &[u8]) -> (out: String)
    ensures
        out@ == list_text(u8_texts(vals@), ","@),
{
    u8_list(vals, ",")
}

/// Signed numbers as a JSON array.
pub fn json_i16_array(vals: &[i16]) -> (out: String)
    ensures
        out@ == list_text(i16_texts(vals@), ","@),
{
    i16_list(vals, ",")
}

/// Rendered reals as a JSON array.
pub fn json_f32_array(vals: &[String]) -> (out: String)
    ensures
        out@ == list_text(real_texts(vals@), ","@),
{
    text_list(vals, ",")
}

/// Bytes as pairs of upper-case hexadecimal digits.
pub open spec fn hex_bytes_text(b: Seq<u8>) -> Seq<char>
    decreases b.len(),
{
    if b.len() == 0 {
        Seq::empty()
    } else {
        hex_bytes_text(b.drop_last()) + hex_text(b.last() as nat, 2)
    }
}

/// At most 128 bytes in hexadecimal, with an ellipsis if there are more.
pub open spec fn hex_capped_text(b: Seq<u8>) -> Seq<char> {
    if b.len() > 128 {
        hex_bytes_text(b.subrange(0, 128)) + "..."@
    } else {
        hex_bytes_text(b)
    }
}

/// Upper-case hexadecimal text of `bytes`, capped at 128 bytes with an
/// ellipsis.
pub fn hex_capped(bytes: &[u8]) -> (out: String)
    ensures
        out@ == hex_capped_text(bytes@),
{
    let n: usize = if bytes.len() < 128 {
        bytes.len()
    } else {
        128
    };
    let mut out: String = String::new();
    let mut i: usize = 0;
    while i < n
        invariant
            i <= n <= bytes@.len(),
            out@ == hex_bytes_text(bytes@.subrange(0, i as int)),
        decreases n - i,
    {
        push_hex(&mut out, bytes[i] as u32, 2);
        i += 1;
        assert(bytes@.subrange(0, i as int).drop_last() =~= bytes@.subrange(0, i - 1));
    }
    if bytes.len() > 128 {
        out.append("...");
    } else {
        assert(bytes@.subrange(0, n as int) =~= bytes@);
    }
    out
}

/// The sum of bytes.
pub(crate) fn add_u8(vals: &[u8]) -> (sum: u64)
    requires
        vals@.len() <= 0xffff_ffff,
    ensures
        sum == sum_u8(vals@),
{
    let mut sum: u64 = 0;
    let mut i: usize = 0;
    while i < vals.len()
        invariant
            i <= vals@.len() <= 0xffff_ffff,
            sum == sum_u8(vals@.take(i as int)),
            sum <= 255 * i,
        decreases vals@.len() - i,
    {
        sum += vals[i] as u64;
        i += 1;
        assert(vals@.take(i as int).drop_last() =~= vals@.take(i - 1));
    }
    assert(vals@.take(i as int) =~= vals@);
    sum
}

/// The sum of magnitudes.
fn add_abs(vals: &[i16]) -> (sum: u64)
    requires
        vals@.len() <= 0xffff_ffff,
    ensures
        sum == sum_abs(vals@),
{
    let mut sum: u64 = 0;
    let mut i: usize = 0;
    while i < vals.len()
        invariant
            i <= vals@.len() <= 0xffff_ffff,
            sum == sum_abs(vals@.take(i as int)),
            sum <= 32768 * i,
        decreases vals@.len() - i,
    {
        let v: i64 = vals[i] as i64;
        sum += if v < 0 {
            (-v) as u64
        } else {
            v as u64
        };
        i += 1;
        assert(vals@.take(i as int).drop_last() =~= vals@.take(i - 1));
    }
    assert(vals@.take(i as int) =~= vals@);
    sum
}

/// The signed numbers stored in `p` from `at` on.
pub open spec fn i16s_at(p: Seq<u8>, at: int, n: nat) -> Seq<i16> {
    Seq::new(n, |k: int| i16_at(p, at + 2 * k))
}

/// A stream that ends inside a frame, as JSON.
pub open spec fn json_truncated_text(offset: int) -> Seq<char> {
    "{\"truncated\":true,\"offset\":"@
        + nat_text(offset as nat)
        + "}"@
}

/// A stream that ends inside a frame, as JSON.
pub fn json_truncated(offset: usize) -> (out: String)
    ensures
        out@ == json_truncated_text(offset as int),
{
    let mut out: String = "{\"truncated\":true,\"offset\":".to_owned();
    push_dec(&mut out, offset as u64);
    out.append("}");
    out
}

/// A frame that failed validation, as JSON.
pub open spec fn json_bad_text(offset: int, h: Header, reason: BadReason) -> Seq<char> {
    "{\"bad\":true,\"offset\":"@
        + nat_text(offset as nat)
        + ",\"kind\":"@
        + nat_text(h.kind as nat)
        + ",\"kind_name\":\""@
        + kind_text(h.kind)
        + "\",\"src\":"@
        + nat_text(h.src_node as nat)
        + ",\"src_name\":\""@
        + node_text(h.src_node)
        + "\",\"dst\":"@
        + nat_text(h.dst_node as nat)
        + ",\"seq\":"@
        + nat_text(h.seq as nat)
        + ",\"t_us\":"@
        + nat_text(h.t_us as nat)
        + ",\"claimed_payload_len\":"@
        + nat_text(h.payload_len as nat)
        + ",\"crc16\":"@
        + nat_text(h.crc16 as nat)
        + ",\"reason\":\""@
        + reason_text(reason)
        + "\"}"@
}

/// A frame that failed validation, as JSON.
pub fn json_bad(offset: usize, h: &Header, reason: BadReason) -> (out: String)
    ensures
        out@ == json_bad_text(offset as int, *h, reason),
{
    let mut out: String = "{\"bad\":true,\"offset\":".to_owned();
    push_dec(&mut out, offset as u64);
    out.append(",\"kind\":");
    push_dec(&mut out, h.kind as u64);
    out.append(",\"kind_name\":\"");
    out.append(kind_name(h.kind));
    out.append("\",\"src\":");
    push_dec(&mut out, h.src_node as u64);
    out.append(",\"src_name\":\"");
    out.append(node_name(h.src_node));
    out.append("\",\"dst\":");
    push_dec(&mut out, h.dst_node as u64);
    out.append(",\"seq\":");
    push_dec(&mut out, h.seq as u64);
    out.append(",\"t_us\":");
    push_dec(&mut out, h.t_us as u64);
    out.append(",\"claimed_payload_len\":");
    push_dec(&mut out, h.payload_len as u64);
    out.append(",\"crc16\":");
    push_dec(&mut out, h.crc16 as u64);
    out.append(",\"reason\":\"");
    out.append(reason.as_str());
    out.append("\"}");
    out
}

/// A payload too short for its type, as JSON.
pub open spec fn json_short_text(n: nat) -> Seq<char> {
    "{\"short\":"@
        + nat_text(n as nat)
        + "}"@
}

/// A payload too short for its type, as JSON.
pub fn json_short(n: usize) -> (out: String)
    ensures
        out@ == json_short_text(n as nat),
{
    let mut out: String = "{\"short\":".to_owned();
    push_dec(&mut out, n as u64);
    out.append("}");
    out
}

/// A measurement payload as JSON.
pub open spec fn json_data_text(p: Seq<u8>) -> Seq<char> {
    "{\"tx_power_db\":"@
        + nat_text(p[0] as nat)
        + ",\"flags\":"@
        + nat_text(p[1] as nat)
        + ",\"flags_cal\":"@
        + nat_text(bit(p[1], data_flags::CAL) as nat)
        + ",\"flags_sync\":"@
        + nat_text(bit(p[1], data_flags::SYNC) as nat)
        + "}"@
}

/// 1 if any bit of `mask` is set in `v`, else 0.
pub open spec fn bit(v: u8, mask: u8) -> nat {
    if v & mask != 0 {
        1
    } else {
        0
    }
}

fn json_data(p: &[u8]) -> (out: String)
    requires
        p@.len() >= 2,
    ensures
        out@ == json_data_text(p@),
{
    let cal: u64 = if p[1] & data_flags::CAL != 0 {
        1
    } else {
        0
    };
    let sync: u64 = if p[1] & data_flags::SYNC != 0 {
        1
    } else {
        0
    };
    let mut out: String = "{\"tx_power_db\":".to_owned();
    push_dec(&mut out, p[0] as u64);
    out.append(",\"flags\":");
    push_dec(&mut out, p[1] as u64);
    out.append(",\"flags_cal\":");
    push_dec(&mut out, cal);
    out.append(",\"flags_sync\":");
    push_dec(&mut out, sync);
    out.append("}");
    out
}

/// A feature report as JSON, given the texts of its reals.
pub open spec fn json_feature_text(p: Seq<u8>, reals: Seq<Seq<char>>) -> Seq<char> {
    "{\"seq\":"@
        + nat_text(u32_at(p, 0) as nat)
        + ",\"n_frames\":"@
        + nat_text(u32_at(p, 4) as nat)
        + ",\"n_missing\":"@
        + nat_text(u32_at(p, 8) as nat)
        + ",\"rssi\":"@
        + int_text(i16_at(p, 12) as int)
        + ",\"snr\":"@
        + int_text(i8_of_u8(p[14]) as int)
        + ",\"csi_quality\":"@
        + nat_text(p[15] as nat)
        + ",\"sat_score\":"@
        + nat_text(p[16] as nat)
        + ",\"dyn_range\":"@
        + nat_text(p[17] as nat)
        + ",\"flags\":"@
        + nat_text(p[18] as nat)
        + ",\"amp_mean\":"@
        + reals[0]
        + ",\"amp_std\":"@
        + reals[1]
        + ",\"motion_energy\":"@
        + reals[2]
        + ",\"spectral_entropy\":"@
        + reals[3]
        + ",\"dominant_freq_hz\":"@
        + reals[4]
        + ",\"phase_dispersion\":"@
        + reals[5]
        + ",\"baseline_dev\":"@
        + reals[6]
        + ",\"pca_scores\":"@
        + list_text(reals.subrange(7, 15), ","@)
        + "}"@
}

fn json_feature(fr: &FeatureReport, Ghost(p): Ghost<Seq<u8>>, reals: &[String]) -> (out: String)
    requires
        crate::protocol::payloads::feature_report_at(p, *fr),
        reals@.len() == 15,
    ensures
        out@ == json_feature_text(p, real_texts(reals@)),
{
    let scores = json_f32_array(vstd::slice::slice_subrange(reals, 7, 15));
    assert(real_texts(reals@.subrange(7, 15)) =~= real_texts(reals@).subrange(7, 15));
    let mut out: String = "{\"seq\":".to_owned();
    push_dec(&mut out, fr.seq as u64);
    out.append(",\"n_frames\":");
    push_dec(&mut out, fr.n_frames as u64);
    out.append(",\"n_missing\":");
    push_dec(&mut out, fr.n_missing as u64);
    out.append(",\"rssi\":");
    push_int(&mut out, fr.rssi as i32);
    out.append(",\"snr\":");
    push_int(&mut out, fr.snr as i32);
    out.append(",\"csi_quality\":");
    push_dec(&mut out, fr.csi_quality as u64);
    out.append(",\"sat_score\":");
    push_dec(&mut out, fr.sat_score as u64);
    out.append(",\"dyn_range\":");
    push_dec(&mut out, fr.dyn_range as u64);
    out.append(",\"flags\":");
    push_dec(&mut out, fr.flags as u64);
    out.append(",\"amp_mean\":");
    out.append(reals[0].as_str());
    out.append(",\"amp_std\":");
    out.append(reals[1].as_str());
    out.append(",\"motion_energy\":");
    out.append(reals[2].as_str());
    out.append(",\"spectral_entropy\":");
    out.append(reals[3].as_str());
    out.append(",\"dominant_freq_hz\":");
    out.append(reals[4].as_str());
    out.append(",\"phase_dispersion\":");
    out.append(reals[5].as_str());
    out.append(",\"baseline_dev\":");
    out.append(reals[6].as_str());
    out.append(",\"pca_scores\":");
    out.append(scores.as_str());
    out.append("}");
    out
}

/// A CSI snapshot as JSON, given the texts of its reals.
pub open spec fn json_snapshot_text(p: Seq<u8>, reals: Seq<Seq<char>>) -> Seq<char> {
    "{\"seq\":"@
        + nat_text(u32_at(p, 0) as nat)
        + ",\"rssi\":"@
        + int_text(i16_at(p, 4) as int)
        + ",\"snr\":"@
        + int_text(i8_of_u8(p[6]) as int)
        + ",\"csi_quality\":"@
        + nat_text(p[7] as nat)
        + ",\"noise_floor\":"@
        + reals[0]
        + ",\"flags\":"@
        + nat_text(p[12] as nat)
        + ",\"n_sub\":"@
        + nat_text(p[13] as nat)
        + ",\"amp_mean\":"@
        + reals[1]
        + ",\"spec_mean\":"@
        + reals[2]
        + ",\"amp_first\":"@
        + list_text(u8_texts(p.subrange(239, 247)), ","@)
        + ",\"spec_first\":"@
        + list_text(u8_texts(p.subrange(295, 303)), ","@)
        + ",\"iq_first\":"@
        + list_text(i16_texts(i16s_at(p, 15, 8)), ","@)
        + "}"@
}

/// The first values of a snapshot's arrays.
proof fn snapshot_fronts(p: Seq<u8>, s: CsiSnapshot)
    requires
        p.len() >= 359,
        crate::protocol::payloads::csi_snapshot_at(p, s),
    ensures
        s.amp_norm@.subrange(0, 8) == p.subrange(239, 247),
        s.spec@.subrange(0, 8) == p.subrange(295, 303),
        s.iq@.subrange(0, 8) == i16s_at(p, 15, 8),
{
    assert(s.amp_norm@.subrange(0, 8) =~= p.subrange(239, 247));
    assert(s.spec@.subrange(0, 8) =~= p.subrange(295, 303));
    assert(s.iq@.subrange(0, 8) =~= i16s_at(p, 15, 8));
}

fn json_snapshot(s: &CsiSnapshot, Ghost(p): Ghost<Seq<u8>>, reals: &[String]) -> (out: String)
    requires
        p.len() >= 359,
        crate::protocol::payloads::csi_snapshot_at(p, *s),
        reals@.len() == 3,
    ensures
        out@ == json_snapshot_text(p, real_texts(reals@)),
{
    proof {
        snapshot_fronts(p, *s);
    }
    let amp = json_u8_array(vstd::slice::slice_subrange(s.amp_norm.as_slice(), 0, 8));
    let bins = json_u8_array(vstd::slice::slice_subrange(s.spec.as_slice(), 0, 8));
    let iq = json_i16_array(vstd::slice::slice_subrange(s.iq.as_slice(), 0, 8));
    let mut out: String = "{\"seq\":".to_owned();
    push_dec(&mut out, s.seq as u64);
    out.append(",\"rssi\":");
    push_int(&mut out, s.rssi as i32);
    out.append(",\"snr\":");
    push_int(&mut out, s.snr as i32);
    out.append(",\"csi_quality\":");
    push_dec(&mut out, s.csi_quality as u64);
    out.append(",\"noise_floor\":");
    out.append(reals[0].as_str());
    out.append(",\"flags\":");
    push_dec(&mut out, s.flags as u64);
    out.append(",\"n_sub\":");
    push_dec(&mut out, s.n_sub as u64);
    out.append(",\"amp_mean\":");
    out.append(reals[1].as_str());
    out.append(",\"spec_mean\":");
    out.append(reals[2].as_str());
    out.append(",\"amp_first\":");
    out.append(amp.as_str());
    out.append(",\"spec_first\":");
    out.append(bins.as_str());
    out.append(",\"iq_first\":");
    out.append(iq.as_str());
    out.append("}");
    out
}

/// A calibration command as JSON.
pub open spec fn json_cal_cmd_text(p: Seq<u8>) -> Seq<char> {
    "{\"stage\":"@
        + nat_text(cal_cmd_at(p).stage as nat)
        + ",\"action\":"@
        + nat_text(cal_cmd_at(p).action as nat)
        + ",\"collect_ms\":"@
        + nat_text(cal_cmd_at(p).collect_ms as nat)
        + ",\"tx_power_db\":"@
        + int_text(cal_cmd_at(p).tx_power_db as int)
        + "}"@
}

/// A calibration response as JSON, given the text of its real.
pub open spec fn json_cal_resp_text(p: Seq<u8>, reals: Seq<Seq<char>>) -> Seq<char> {
    "{\"stage\":"@
        + nat_text(cal_resp_at(p).stage as nat)
        + ",\"result\":"@
        + nat_text(cal_resp_at(p).result as nat)
        + ",\"rssi\":"@
        + int_text(cal_resp_at(p).rssi as int)
        + ",\"snr\":"@
        + int_text(cal_resp_at(p).snr as int)
        + ",\"csi_quality\":"@
        + nat_text(cal_resp_at(p).csi_quality as nat)
        + ",\"sat_score\":"@
        + nat_text(cal_resp_at(p).sat_score as nat)
        + ",\"dyn_range\":"@
        + nat_text(cal_resp_at(p).dyn_range as nat)
        + ",\"noise_floor\":"@
        + reals[0]
        + ",\"n_samples\":"@
        + nat_text(cal_resp_at(p).n_samples as nat)
        + "}"@
}

/// A status payload as JSON.
pub open spec fn json_status_text(p: Seq<u8>) -> Seq<char> {
    "{\"uptime_s\":"@
        + nat_text(status_at(p).uptime_s as nat)
        + ",\"tx_seq\":"@
        + nat_text(status_at(p).tx_seq as nat)
        + ",\"rx_packets\":"@
        + nat_text(status_at(p).rx_packets as nat)
        + ",\"rx_drops\":"@
        + nat_text(status_at(p).rx_drops as nat)
        + ",\"heap_free\":"@
        + nat_text(status_at(p).heap_free as nat)
        + ",\"wifi_connected\":"@
        + nat_text(status_at(p).wifi_connected as nat)
        + ",\"csi_enabled\":"@
        + nat_text(status_at(p).csi_enabled as nat)
        + ",\"paired_frames_per_s\":"@
        + nat_text(status_at(p).paired_frames_per_s as nat)
        + "}"@
}

/// A payload of an unknown type as JSON.
pub open spec fn json_hex_text(p: Seq<u8>) -> Seq<char> {
    "{\"hex\":\""@
        + hex_capped_text(p)
        + "\"}"@
}

/// How many reals a payload's JSON text holds.
pub open spec fn json_real_count(kind: u8, p: Seq<u8>) -> nat {
    if kind == frame_type::FEATURE_REPORT && p.len() >= 79 {
        15
    } else if kind == frame_type::CSI_SNAPSHOT && p.len() >= 359 {
        3
    } else if kind == frame_type::CAL_RESP && p.len() >= 17 {
        1
    } else {
        0
    }
}

/// The reals of a payload's JSON text, in order.
pub open spec fn json_reals_of(kind: u8, p: Seq<u8>) -> Seq<Real> {
    if kind == frame_type::FEATURE_REPORT && p.len() >= 79 {
        Seq::new(15, |i: int| Real::Shortest(u32_at(p, 19 + 4 * i)))
    } else if kind == frame_type::CSI_SNAPSHOT && p.len() >= 359 {
        let amp = leading(p.subrange(239, 295), p[13] as int);
        seq![
            Real::Shortest(u32_at(p, 8)),
            mean_of(sum_u8(amp), amp.len()),
            mean_of(sum_u8(p.subrange(295, 359)), 64),
        ]
    } else if kind == frame_type::CAL_RESP && p.len() >= 17 {
        seq![Real::Shortest(cal_resp_at(p).noise_floor)]
    } else {
        Seq::empty()
    }
}

/// A payload as JSON: decoded if its type is known and it is long enough, its
/// length if it is too short, else in hexadecimal.
pub open spec fn json_payload_text(kind: u8, p: Seq<u8>, reals: Seq<Seq<char>>) -> Seq<char> {
    if kind == frame_type::DATA_FRAME {
        if p.len() < 2 { json_short_text(p.len()) } else { json_data_text(p) }
    } else if kind == frame_type::FEATURE_REPORT {
        if p.len() < 79 { json_short_text(p.len()) } else { json_feature_text(p, reals) }
    } else if kind == frame_type::CSI_SNAPSHOT {
        if p.len() < 359 { json_short_text(p.len()) } else { json_snapshot_text(p, reals) }
    } else if kind == frame_type::CAL_CMD {
        if p.len() < 8 { json_short_text(p.len()) } else { json_cal_cmd_text(p) }
    } else if kind == frame_type::CAL_RESP {
        if p.len() < 17 { json_short_text(p.len()) } else { json_cal_resp_text(p, reals) }
    } else if kind == frame_type::STATUS {
        if p.len() < 22 { json_short_text(p.len()) } else { json_status_text(p) }
    } else {
        json_hex_text(p)
    }
}

/// The reals of a payload's JSON text, in order.
pub fn json_reals(kind: u8, p: &[u8]) -> (out: Vec<Real>)
    ensures
        out@ == json_reals_of(kind, p@),
        out@.len() == json_real_count(kind, p@),
{
    let mut out: Vec<Real> = Vec::new();
    if kind == frame_type::FEATURE_REPORT {
        if p.len() >= 79 {
            let mut i: usize = 0;
            while i < 15
                invariant
                    i <= 15,
                    p@.len() >= 79,
                    out@ == Seq::new(i as nat, |k: int| Real::Shortest(u32_at(p@, 19 + 4 * k))),
                decreases 15 - i,
            {
                out.push(Real::Shortest(crate::wire::get_u32(p, 19 + 4 * i)));
                i += 1;
                assert(out@ =~= Seq::new(i as nat, |k: int| Real::Shortest(u32_at(p@, 19 + 4 * k))));
            }
        }
    } else if kind == frame_type::CSI_SNAPSHOT {
        if p.len() >= 359 {
            let n: usize = if p[13] < 56 {
                p[13] as usize
            } else {
                56
            };
            let amp = vstd::slice::slice_subrange(p, 239, 239 + n);
            let bins = vstd::slice::slice_subrange(p, 295, 359);
            assert(amp@ =~= leading(p@.subrange(239, 295), p@[13] as int));
            out.push(Real::Shortest(crate::wire::get_u32(p, 8)));
            out.push(Real::Mean1 { sum: add_u8(amp), count: n as u64 });
            out.push(Real::Mean1 { sum: add_u8(bins), count: 64 });
        }
    } else if kind == frame_type::CAL_RESP {
        if p.len() >= 17 {
            out.push(Real::Shortest(crate::wire::get_u32(p, 9)));
        }
    }
    assert(out@ =~= json_reals_of(kind, p@));
    out
}

/// A payload as JSON, given the texts of its reals.
pub fn json_payload(kind: u8, p: &[u8], reals: &[String]) -> (out: String)
    requires
        reals@.len() == json_real_count(kind, p@),
    ensures
        out@ == json_payload_text(kind, p@, real_texts(reals@)),
{
    if kind == frame_type::DATA_FRAME {
        if p.len() < 2 {
            return json_short(p.len());
        }
        json_data(p)
    } else if kind == frame_type::FEATURE_REPORT {
        match parse_feature_report(p) {
            Some(fr) => json_feature(&fr, Ghost(p@), reals),
            None => json_short(p.len()),
        }
    } else if kind == frame_type::CSI_SNAPSHOT {
        match parse_csi_snapshot(p) {
            Some(s) => json_snapshot(&s, Ghost(p@), reals),
            None => json_short(p.len()),
        }
    } else if kind == frame_type::CAL_CMD {
        match parse_cal_cmd(p) {
            Some(c) => {
                let mut out: String = "{\"stage\":".to_owned();
                push_dec(&mut out, c.stage as u64);
                out.append(",\"action\":");
                push_dec(&mut out, c.action as u64);
                out.append(",\"collect_ms\":");
                push_dec(&mut out, c.collect_ms as u64);
                out.append(",\"tx_power_db\":");
                push_int(&mut out, c.tx_power_db as i32);
                out.append("}");
                out
            },
            None => json_short(p.len()),
        }
    } else if kind == frame_type::CAL_RESP {
        match parse_cal_resp(p) {
            Some(r) => {
                let mut out: String = "{\"stage\":".to_owned();
                push_dec(&mut out, r.stage as u64);
                out.append(",\"result\":");
                push_dec(&mut out, r.result as u64);
                out.append(",\"rssi\":");
                push_int(&mut out, r.rssi as i32);
                out.append(",\"snr\":");
                push_int(&mut out, r.snr as i32);
                out.append(",\"csi_quality\":");
                push_dec(&mut out, r.csi_quality as u64);
                out.append(",\"sat_score\":");
                push_dec(&mut out, r.sat_score as u64);
                out.append(",\"dyn_range\":");
                push_dec(&mut out, r.dyn_range as u64);
                out.append(",\"noise_floor\":");
                out.append(reals[0].as_str());
                out.append(",\"n_samples\":");
                push_dec(&mut out, r.n_samples as u64);
                out.append("}");
                out
            },
            None => json_short(p.len()),
        }
    } else if kind == frame_type::STATUS {
        match parse_status(p) {
            Some(s) => {
                let mut out: String = "{\"uptime_s\":".to_owned();
                push_dec(&mut out, s.uptime_s as u64);
                out.append(",\"tx_seq\":");
                push_dec(&mut out, s.tx_seq as u64);
                out.append(",\"rx_packets\":");
                push_dec(&mut out, s.rx_packets as u64);
                out.append(",\"rx_drops\":");
                push_dec(&mut out, s.rx_drops as u64);
                out.append(",\"heap_free\":");
                push_dec(&mut out, s.heap_free as u64);
                out.append(",\"wifi_connected\":");
                push_dec(&mut out, s.wifi_connected as u64);
                out.append(",\"csi_enabled\":");
                push_dec(&mut out, s.csi_enabled as u64);
                out.append(",\"paired_frames_per_s\":");
                push_dec(&mut out, s.paired_frames_per_s as u64);
                out.append("}");
                out
            },
            None => json_short(p.len()),
        }
    } else {
        let hex = hex_capped(p);
        let mut out: String = "{\"hex\":\"".to_owned();
        out.append(hex.as_str());
        out.append("\"}");
        out
    }
}

/// A validated frame as JSON, given the texts of its payload's reals.
pub open spec fn json_frame_text(idx: u64, offset: int, h: Header, p: Seq<u8>, reals: Seq<Seq<char>>) -> Seq<char> {
    "{\"frame\":"@
        + nat_text(idx as nat)
        + ",\"offset\":"@
        + nat_text(offset as nat)
        + ",\"magic\":\"0x"@
        + hex_text(h.magic as nat, 8)
        + "\",\"version\":"@
        + nat_text(h.version as nat)
        + ",\"kind\":"@
        + nat_text(h.kind as nat)
        + ",\"kind_name\":\""@
        + kind_text(h.kind)
        + "\",\"src\":"@
        + nat_text(h.src_node as nat)
        + ",\"src_name\":\""@
        + node_text(h.src_node)
        + "\",\"dst\":"@
        + nat_text(h.dst_node as nat)
        + ",\"dst_name\":\""@
        + node_text(h.dst_node)
        + "\",\"seq\":"@
        + nat_text(h.seq as nat)
        + ",\"t_us\":"@
        + nat_text(h.t_us as nat)
        + ",\"payload_len\":"@
        + nat_text(h.payload_len as nat)
        + ",\"crc16\":"@
        + nat_text(h.crc16 as nat)
        + ",\"crc_ok\":true,\"payload\":"@
        + json_payload_text(h.kind, p, reals)
        + "}"@
}

/// A validated frame as JSON, given the texts of its payload's reals.
pub fn json_frame(idx: u64, offset: usize, h: &Header, p: &[u8], reals: &[String]) -> (out: String)
    requires
        reals@.len() == json_real_count(h.kind, p@),
    ensures
        out@ == json_frame_text(idx, offset as int, *h, p@, real_texts(reals@)),
{
    let payload = json_payload(h.kind, p, reals);
    let mut out: String = "{\"frame\":".to_owned();
    push_dec(&mut out, idx as u64);
    out.append(",\"offset\":");
    push_dec(&mut out, offset as u64);
    out.append(",\"magic\":\"0x");
    push_hex(&mut out, h.magic, 8);
    out.append("\",\"version\":");
    push_dec(&mut out, h.version as u64);
    out.append(",\"kind\":");
    push_dec(&mut out, h.kind as u64);
    out.append(",\"kind_name\":\"");
    out.append(kind_name(h.kind));
    out.append("\",\"src\":");
    push_dec(&mut out, h.src_node as u64);
    out.append(",\"src_name\":\"");
    out.append(node_name(h.src_node));
    out.append("\",\"dst\":");
    push_dec(&mut out, h.dst_node as u64);
    out.append(",\"dst_name\":\"");
    out.append(node_name(h.dst_node));
    out.append("\",\"seq\":");
    push_dec(&mut out, h.seq as u64);
    out.append(",\"t_us\":");
    push_dec(&mut out, h.t_us as u64);
    out.append(",\"payload_len\":");
    push_dec(&mut out, h.payload_len as u64);
    out.append(",\"crc16\":");
    push_dec(&mut out, h.crc16 as u64);
    out.append(",\"crc_ok\":true,\"payload\":");
    out.append(payload.as_str());
    out.append("}");
    out
}

/// A stream that ends inside a frame.
pub open spec fn text_truncated_text(offset: int) -> Seq<char> {
    "TRUNCATED header at offset "@
        + nat_text(offset as nat)
        + ": stream ends mid-frame"@
}

/// A stream that ends inside a frame.
pub fn text_truncated(offset: usize) -> (out: String)
    ensures
        out@ == text_truncated_text(offset as int),
{
    let mut out: String = "TRUNCATED header at offset ".to_owned();
    push_dec(&mut out, offset as u64);
    out.append(": stream ends mid-frame");
    out
}

/// A frame that failed validation.
pub open spec fn text_bad_text(offset: int, h: Header, reason: BadReason) -> Seq<char> {
    "BAD FRAME at offset "@
        + nat_text(offset as nat)
        + ": kind="@
        + kind_text(h.kind)
        + " src="@
        + node_text(h.src_node)
        + " dst="@
        + node_text(h.dst_node)
        + " seq="@
        + nat_text(h.seq as nat)
        + " t_us="@
        + nat_text(h.t_us as nat)
        + " claimed_len="@
        + nat_text(h.payload_len as nat)
        + " ("@
        + reason_text(reason)
        + ")"@
}

/// A frame that failed validation.
pub fn text_bad(offset: usize, h: &Header, reason: BadReason) -> (out: String)
    ensures
        out@ == text_bad_text(offset as int, *h, reason),
{
    let mut out: String = "BAD FRAME at offset ".to_owned();
    push_dec(&mut out, offset as u64);
    out.append(": kind=");
    out.append(kind_name(h.kind));
    out.append(" src=");
    out.append(node_name(h.src_node));
    out.append(" dst=");
    out.append(node_name(h.dst_node));
    out.append(" seq=");
    push_dec(&mut out, h.seq as u64);
    out.append(" t_us=");
    push_dec(&mut out, h.t_us as u64);
    out.append(" claimed_len=");
    push_dec(&mut out, h.payload_len as u64);
    out.append(" (");
    out.append(reason.as_str());
    out.append(")");
    out
}

/// A payload too short for its type.
pub open spec fn dump_short_text(what: Seq<char>, n: nat) -> Seq<char> {
    "  payload: short "@
        + what
        + " ("@
        + nat_text(n as nat)
        + " bytes)"@
}

fn dump_short(what: &str, n: usize) -> (out: String)
    ensures
        out@ == dump_short_text(what@, n as nat),
{
    let mut out: String = "  payload: short ".to_owned();
    out.append(what);
    out.append(" (");
    push_dec(&mut out, n as u64);
    out.append(" bytes)");
    out
}

/// The names of the flags set in a measurement packet.
pub open spec fn data_flag_text(flags: u8) -> Seq<char> {
    (if flags & data_flags::CAL != 0 { " CAL"@ } else { Seq::empty() }) + (if flags
        & data_flags::SYNC != 0 { " SYNC"@ } else { Seq::empty() })
}

fn data_flag_names(flags: u8) -> (out: String)
    ensures
        out@ == data_flag_text(flags),
{
    let mut out: String = String::new();
    if flags & data_flags::CAL != 0 {
        out.append(" CAL");
        assert(out@ =~= " CAL"@);
    }
    if flags & data_flags::SYNC != 0 {
        out.append(" SYNC");
    }
    assert(out@ =~= data_flag_text(flags));
    out
}

/// The names of the flags set in a feature report.
pub open spec fn report_flag_text(flags: u8) -> Seq<char> {
    if flags & report_flags::OVERFLOW != 0 {
        " OVERFLOW"@
    } else {
        Seq::empty()
    }
}

fn report_flag_names(flags: u8) -> (s: &'static str)
    ensures
        s@ == report_flag_text(flags),
{
    if flags & report_flags::OVERFLOW != 0 {
        " OVERFLOW"
    } else {
        proof {
            reveal_strlit("");
            assert(""@ =~= Seq::empty());
        }
        ""
    }
}

/// A measurement payload.
pub open spec fn dump_data_text(p: Seq<u8>) -> Seq<char> {
    "  payload: DataPayload tx_power_db="@
        + nat_text(p[0] as nat)
        + " flags=0x"@
        + hex_text(p[1] as nat, 2)
        + data_flag_text(p[1])
}

fn dump_data(p: &[u8]) -> (out: String)
    requires
        p@.len() >= 2,
    ensures
        out@ == dump_data_text(p@),
{
    let tag = data_flag_names(p[1]);
    let mut out: String = "  payload: DataPayload tx_power_db=".to_owned();
    push_dec(&mut out, p[0] as u64);
    out.append(" flags=0x");
    push_hex(&mut out, p[1] as u32, 2);
    out.append(tag.as_str());
    out
}

/// A feature report, given the texts of its reals.
pub open spec fn dump_feature_text(p: Seq<u8>, reals: Seq<Seq<char>>) -> Seq<char> {
    "  payload: FeatureReport seq="@
        + nat_text(u32_at(p, 0) as nat)
        + " n_frames="@
        + nat_text(u32_at(p, 4) as nat)
        + " n_missing="@
        + nat_text(u32_at(p, 8) as nat)
        + " rssi="@
        + int_text(i16_at(p, 12) as int)
        + " dBm snr="@
        + int_text(i8_of_u8(p[14]) as int)
        + " dB csi_quality="@
        + nat_text(p[15] as nat)
        + " sat_score="@
        + nat_text(p[16] as nat)
        + " dyn_range="@
        + nat_text(p[17] as nat)
        + " flags=0x"@
        + hex_text(p[18] as nat, 2)
        + report_flag_text(p[18])
        + "\n    amp_mean="@
        + reals[0]
        + " amp_std="@
        + reals[1]
        + " motion_energy="@
        + reals[2]
        + " spectral_entropy="@
        + reals[3]
        + " dominant_freq_hz="@
        + reals[4]
        + " phase_dispersion="@
        + reals[5]
        + " baseline_dev="@
        + reals[6]
        + "\n    pca_scores="@
        + list_text(reals.subrange(7, 15), ", "@)
}

fn dump_feature(fr: &FeatureReport, Ghost(p): Ghost<Seq<u8>>, reals: &[String]) -> (out: String)
    requires
        crate::protocol::payloads::feature_report_at(p, *fr),
        reals@.len() == 15,
    ensures
        out@ == dump_feature_text(p, real_texts(reals@)),
{
    let scores = text_list(vstd::slice::slice_subrange(reals, 7, 15), ", ");
    assert(real_texts(reals@.subrange(7, 15)) =~= real_texts(reals@).subrange(7, 15));
    let mut out: String = "  payload: FeatureReport seq=".to_owned();
    push_dec(&mut out, fr.seq as u64);
    out.append(" n_frames=");
    push_dec(&mut out, fr.n_frames as u64);
    out.append(" n_missing=");
    push_dec(&mut out, fr.n_missing as u64);
    out.append(" rssi=");
    push_int(&mut out, fr.rssi as i32);
    out.append(" dBm snr=");
    push_int(&mut out, fr.snr as i32);
    out.append(" dB csi_quality=");
    push_dec(&mut out, fr.csi_quality as u64);
    out.append(" sat_score=");
    push_dec(&mut out, fr.sat_score as u64);
    out.append(" dyn_range=");
    push_dec(&mut out, fr.dyn_range as u64);
    out.append(" flags=0x");
    push_hex(&mut out, fr.flags as u32, 2);
    out.append(report_flag_names(fr.flags));
    out.append("\n    amp_mean=");
    out.append(reals[0].as_str());
    out.append(" amp_std=");
    out.append(reals[1].as_str());
    out.append(" motion_energy=");
    out.append(reals[2].as_str());
    out.append(" spectral_entropy=");
    out.append(reals[3].as_str());
    out.append(" dominant_freq_hz=");
    out.append(reals[4].as_str());
    out.append(" phase_dispersion=");
    out.append(reals[5].as_str());
    out.append(" baseline_dev=");
    out.append(reals[6].as_str());
    out.append("\n    pca_scores=");
    out.append(scores.as_str());
    out
}

/// A CSI snapshot, given the texts of its reals.
pub open spec fn dump_snapshot_text(p: Seq<u8>, reals: Seq<Seq<char>>) -> Seq<char> {
    "  payload: CsiSnapshot seq="@
        + nat_text(u32_at(p, 0) as nat)
        + " rssi="@
        + int_text(i16_at(p, 4) as int)
        + " dBm snr="@
        + int_text(i8_of_u8(p[6]) as int)
        + " dB csi_quality="@
        + nat_text(p[7] as nat)
        + " noise_floor="@
        + reals[0]
        + " flags=0x"@
        + hex_text(p[12] as nat, 2)
        + " n_sub="@
        + nat_text(p[13] as nat)
        + "\n    amp_norm mean="@
        + reals[1]
        + " first8="@
        + list_text(u8_texts(p.subrange(239, 247)), ", "@)
        + "\n    iq mean|v|="@
        + reals[2]
        + " first4pairs="@
        + list_text(i16_texts(i16s_at(p, 15, 8)), ", "@)
        + "\n    spec mean="@
        + reals[3]
        + " first8="@
        + list_text(u8_texts(p.subrange(295, 303)), ", "@)
}

fn dump_snapshot(s: &CsiSnapshot, Ghost(p): Ghost<Seq<u8>>, reals: &[String]) -> (out: String)
    requires
        p.len() >= 359,
        crate::protocol::payloads::csi_snapshot_at(p, *s),
        reals@.len() == 4,
    ensures
        out@ == dump_snapshot_text(p, real_texts(reals@)),
{
    proof {
        snapshot_fronts(p, *s);
    }
    let amp = u8_list(vstd::slice::slice_subrange(s.amp_norm.as_slice(), 0, 8), ", ");
    let bins = u8_list(vstd::slice::slice_subrange(s.spec.as_slice(), 0, 8), ", ");
    let iq = i16_list(vstd::slice::slice_subrange(s.iq.as_slice(), 0, 8), ", ");
    let mut out: String = "  payload: CsiSnapshot seq=".to_owned();
    push_dec(&mut out, s.seq as u64);
    out.append(" rssi=");
    push_int(&mut out, s.rssi as i32);
    out.append(" dBm snr=");
    push_int(&mut out, s.snr as i32);
    out.append(" dB csi_quality=");
    push_dec(&mut out, s.csi_quality as u64);
    out.append(" noise_floor=");
    out.append(reals[0].as_str());
    out.append(" flags=0x");
    push_hex(&mut out, s.flags as u32, 2);
    out.append(" n_sub=");
    push_dec(&mut out, s.n_sub as u64);
    out.append("\n    amp_norm mean=");
    out.append(reals[1].as_str());
    out.append(" first8=");
    out.append(amp.as_str());
    out.append("\n    iq mean|v|=");
    out.append(reals[2].as_str());
    out.append(" first4pairs=");
    out.append(iq.as_str());
    out.append("\n    spec mean=");
    out.append(reals[3].as_str());
    out.append(" first8=");
    out.append(bins.as_str());
    out
}

/// A calibration command.
pub open spec fn dump_cal_cmd_text(p: Seq<u8>) -> Seq<char> {
    "  payload: CalCmd stage="@
        + nat_text(cal_cmd_at(p).stage as nat)
        + " action="@
        + nat_text(cal_cmd_at(p).action as nat)
        + " collect_ms="@
        + nat_text(cal_cmd_at(p).collect_ms as nat)
        + " tx_power_db="@
        + int_text(cal_cmd_at(p).tx_power_db as int)
}

fn dump_cal_cmd(c: &crate::protocol::CalCmd, Ghost(p): Ghost<Seq<u8>>) -> (out: String)
    requires
        *c == cal_cmd_at(p),
    ensures
        out@ == dump_cal_cmd_text(p),
{
    let mut out: String = "  payload: CalCmd stage=".to_owned();
    push_dec(&mut out, c.stage as u64);
    out.append(" action=");
    push_dec(&mut out, c.action as u64);
    out.append(" collect_ms=");
    push_dec(&mut out, c.collect_ms as u64);
    out.append(" tx_power_db=");
    push_int(&mut out, c.tx_power_db as i32);
    out
}

/// A calibration response, given the text of its real.
pub open spec fn dump_cal_resp_text(p: Seq<u8>, reals: Seq<Seq<char>>) -> Seq<char> {
    "  payload: CalResp stage="@
        + nat_text(cal_resp_at(p).stage as nat)
        + " result="@
        + nat_text(cal_resp_at(p).result as nat)
        + " rssi="@
        + int_text(cal_resp_at(p).rssi as int)
        + " dBm snr="@
        + int_text(cal_resp_at(p).snr as int)
        + " dB csi_quality="@
        + nat_text(cal_resp_at(p).csi_quality as nat)
        + " sat_score="@
        + nat_text(cal_resp_at(p).sat_score as nat)
        + " dyn_range="@
        + nat_text(cal_resp_at(p).dyn_range as nat)
        + " noise_floor="@
        + reals[0]
        + " n_samples="@
        + nat_text(cal_resp_at(p).n_samples as nat)
}

fn dump_cal_resp(r: &crate::protocol::CalResp, Ghost(p): Ghost<Seq<u8>>, reals: &[String]) -> (out: String)
    requires
        *r == cal_resp_at(p),
        reals@.len() == 1,
    ensures
        out@ == dump_cal_resp_text(p, real_texts(reals@)),
{
    let mut out: String = "  payload: CalResp stage=".to_owned();
    push_dec(&mut out, r.stage as u64);
    out.append(" result=");
    push_dec(&mut out, r.result as u64);
    out.append(" rssi=");
    push_int(&mut out, r.rssi as i32);
    out.append(" dBm snr=");
    push_int(&mut out, r.snr as i32);
    out.append(" dB csi_quality=");
    push_dec(&mut out, r.csi_quality as u64);
    out.append(" sat_score=");
    push_dec(&mut out, r.sat_score as u64);
    out.append(" dyn_range=");
    push_dec(&mut out, r.dyn_range as u64);
    out.append(" noise_floor=");
    out.append(reals[0].as_str());
    out.append(" n_samples=");
    push_dec(&mut out, r.n_samples as u64);
    out
}

/// A status payload.
pub open spec fn dump_status_text(p: Seq<u8>) -> Seq<char> {
    "  payload: Status uptime_s="@
        + nat_text(status_at(p).uptime_s as nat)
        + " tx_seq="@
        + nat_text(status_at(p).tx_seq as nat)
        + " rx_packets="@
        + nat_text(status_at(p).rx_packets as nat)
        + " rx_drops="@
        + nat_text(status_at(p).rx_drops as nat)
        + " heap_free="@
        + nat_text(status_at(p).heap_free as nat)
        + " wifi_connected="@
        + nat_text(status_at(p).wifi_connected as nat)
        + " csi_enabled="@
        + nat_text(status_at(p).csi_enabled as nat)
        + " paired_frames_per_s="@
        + nat_text(status_at(p).paired_frames_per_s as nat)
}

fn dump_status(s: &crate::protocol::Status, Ghost(p): Ghost<Seq<u8>>) -> (out: String)
    requires
        *s == status_at(p),
    ensures
        out@ == dump_status_text(p),
{
    let mut out: String = "  payload: Status uptime_s=".to_owned();
    push_dec(&mut out, s.uptime_s as u64);
    out.append(" tx_seq=");
    push_dec(&mut out, s.tx_seq as u64);
    out.append(" rx_packets=");
    push_dec(&mut out, s.rx_packets as u64);
    out.append(" rx_drops=");
    push_dec(&mut out, s.rx_drops as u64);
    out.append(" heap_free=");
    push_dec(&mut out, s.heap_free as u64);
    out.append(" wifi_connected=");
    push_dec(&mut out, s.wifi_connected as u64);
    out.append(" csi_enabled=");
    push_dec(&mut out, s.csi_enabled as u64);
    out.append(" paired_frames_per_s=");
    push_dec(&mut out, s.paired_frames_per_s as u64);
    out
}

/// A payload of an unknown type.
pub open spec fn dump_hex_text(p: Seq<u8>) -> Seq<char> {
    "  payload: "@
        + nat_text(p.len() as nat)
        + " byte(s) hex="@
        + hex_capped_text(p)
}

fn dump_hex(p: &[u8]) -> (out: String)
    ensures
        out@ == dump_hex_text(p@),
{
    let hex = hex_capped(p);
    let mut out: String = "  payload: ".to_owned();
    push_dec(&mut out, p.len() as u64);
    out.append(" byte(s) hex=");
    out.append(hex.as_str());
    out
}

/// How many reals a payload's text holds.
pub open spec fn text_real_count(kind: u8, p: Seq<u8>) -> nat {
    if kind == frame_type::FEATURE_REPORT && p.len() >= 79 {
        15
    } else if kind == frame_type::CSI_SNAPSHOT && p.len() >= 359 {
        4
    } else if kind == frame_type::CAL_RESP && p.len() >= 17 {
        1
    } else {
        0
    }
}

/// The reals of a payload's text, in order.
pub open spec fn text_reals_of(kind: u8, p: Seq<u8>) -> Seq<Real> {
    if kind == frame_type::FEATURE_REPORT && p.len() >= 79 {
        Seq::new(15, |i: int| Real::Fixed3(u32_at(p, 19 + 4 * i)))
    } else if kind == frame_type::CSI_SNAPSHOT && p.len() >= 359 {
        let amp = leading(p.subrange(239, 295), p[13] as int);
        let iq = leading(i16s_at(p, 15, 112), 2 * p[13]);
        seq![
            Real::Fixed1(u32_at(p, 8)),
            mean_of(sum_u8(amp), amp.len()),
            mean_of(sum_abs(iq), iq.len()),
            mean_of(sum_u8(p.subrange(295, 359)), 64),
        ]
    } else if kind == frame_type::CAL_RESP && p.len() >= 17 {
        seq![Real::Fixed1(cal_resp_at(p).noise_floor)]
    } else {
        Seq::empty()
    }
}

/// The reals of a payload's text, in order.
pub fn text_reals(kind: u8, p: &[u8]) -> (out: Vec<Real>)
    ensures
        out@ == text_reals_of(kind, p@),
        out@.len() == text_real_count(kind, p@),
{
    let mut out: Vec<Real> = Vec::new();
    if kind == frame_type::FEATURE_REPORT {
        if p.len() >= 79 {
            let mut i: usize = 0;
            while i < 15
                invariant
                    i <= 15,
                    p@.len() >= 79,
                    out@ == Seq::new(i as nat, |k: int| Real::Fixed3(u32_at(p@, 19 + 4 * k))),
                decreases 15 - i,
            {
                out.push(Real::Fixed3(crate::wire::get_u32(p, 19 + 4 * i)));
                i += 1;
                assert(out@ =~= Seq::new(i as nat, |k: int| Real::Fixed3(u32_at(p@, 19 + 4 * k))));
            }
        }
    } else if kind == frame_type::CSI_SNAPSHOT {
        if let Some(s) = parse_csi_snapshot(p) {
            let n: usize = if s.n_sub < 56 {
                s.n_sub as usize
            } else {
                56
            };
            let amp = vstd::slice::slice_subrange(s.amp_norm.as_slice(), 0, n);
            let iq = vstd::slice::slice_subrange(s.iq.as_slice(), 0, 2 * n);
            assert(amp@ =~= leading(p@.subrange(239, 295), p@[13] as int));
            assert(iq@ =~= leading(i16s_at(p@, 15, 112), 2 * p@[13]));
            out.push(Real::Fixed1(s.noise_floor));
            out.push(Real::Mean1 { sum: add_u8(amp), count: n as u64 });
            out.push(Real::Mean1 { sum: add_abs(iq), count: 2 * (n as u64) });
            out.push(Real::Mean1 { sum: add_u8(s.spec.as_slice()), count: 64 });
        }
    } else if kind == frame_type::CAL_RESP {
        if p.len() >= 17 {
            out.push(Real::Fixed1(crate::wire::get_u32(p, 9)));
        }
    }
    assert(out@ =~= text_reals_of(kind, p@));
    out
}

/// A payload as indented text.
pub open spec fn dump_payload_text(kind: u8, p: Seq<u8>, reals: Seq<Seq<char>>) -> Seq<char> {
    if kind == frame_type::DATA_FRAME {
        if p.len() < 2 { dump_short_text("data payload"@, p.len()) } else { dump_data_text(p) }
    } else if kind == frame_type::FEATURE_REPORT {
        if p.len() < 79 {
            dump_short_text("feature report"@, p.len())
        } else {
            dump_feature_text(p, reals)
        }
    } else if kind == frame_type::CSI_SNAPSHOT {
        if p.len() < 359 {
            dump_short_text("csi snapshot"@, p.len())
        } else {
            dump_snapshot_text(p, reals)
        }
    } else if kind == frame_type::CAL_CMD {
        if p.len() < 8 { dump_short_text("cal cmd"@, p.len()) } else { dump_cal_cmd_text(p) }
    } else if kind == frame_type::CAL_RESP {
        if p.len() < 17 {
            dump_short_text("cal resp"@, p.len())
        } else {
            dump_cal_resp_text(p, reals)
        }
    } else if kind == frame_type::STATUS {
        if p.len() < 22 { dump_short_text("status"@, p.len()) } else { dump_status_text(p) }
    } else {
        dump_hex_text(p)
    }
}

/// A payload as indented text, given the texts of its reals.
pub fn dump_payload(kind: u8, p: &[u8], reals: &[String]) -> (out: String)
    requires
        reals@.len() == text_real_count(kind, p@),
    ensures
        out@ == dump_payload_text(kind, p@, real_texts(reals@)),
{
    if kind == frame_type::DATA_FRAME {
        if p.len() < 2 {
            return dump_short("data payload", p.len());
        }
        dump_data(p)
    } else if kind == frame_type::FEATURE_REPORT {
        match parse_feature_report(p) {
            Some(fr) => dump_feature(&fr, Ghost(p@), reals),
            None => dump_short("feature report", p.len()),
        }
    } else if kind == frame_type::CSI_SNAPSHOT {
        match parse_csi_snapshot(p) {
            Some(s) => dump_snapshot(&s, Ghost(p@), reals),
            None => dump_short("csi snapshot", p.len()),
        }
    } else if kind == frame_type::CAL_CMD {
        match parse_cal_cmd(p) {
            Some(c) => dump_cal_cmd(&c, Ghost(p@)),
            None => dump_short("cal cmd", p.len()),
        }
    } else if kind == frame_type::CAL_RESP {
        match parse_cal_resp(p) {
            Some(r) => dump_cal_resp(&r, Ghost(p@), reals),
            None => dump_short("cal resp", p.len()),
        }
    } else if kind == frame_type::STATUS {
        match parse_status(p) {
            Some(s) => dump_status(&s, Ghost(p@)),
            None => dump_short("status", p.len()),
        }
    } else {
        dump_hex(p)
    }
}

/// A validated frame as text, given the texts of its payload's reals.
pub open spec fn text_frame_text(idx: u64, offset: int, h: Header, p: Seq<u8>, reals: Seq<Seq<char>>) -> Seq<char> {
    "FRAME #"@
        + nat_text(idx as nat)
        + " offset="@
        + nat_text(offset as nat)
        + " magic=0x"@
        + hex_text(h.magic as nat, 8)
        + " version="@
        + nat_text(h.version as nat)
        + " kind="@
        + kind_text(h.kind)
        + " src="@
        + node_text(h.src_node)
        + " dst="@
        + node_text(h.dst_node)
        + " seq="@
        + nat_text(h.seq as nat)
        + " t_us="@
        + nat_text(h.t_us as nat)
        + " payload_len="@
        + nat_text(h.payload_len as nat)
        + " crc16=0x"@
        + hex_text(h.crc16 as nat, 4)
        + " CRC=OK\n"@
        + dump_payload_text(h.kind, p, reals)
}

/// A validated frame as text, given the texts of its payload's reals.
pub fn text_frame(idx: u64, offset: usize, h: &Header, p: &[u8], reals: &[String]) -> (out: String)
    requires
        reals@.len() == text_real_count(h.kind, p@),
    ensures
        out@ == text_frame_text(idx, offset as int, *h, p@, real_texts(reals@)),
{
    let payload = dump_payload(h.kind, p, reals);
    let mut out: String = "FRAME #".to_owned();
    push_dec(&mut out, idx as u64);
    out.append(" offset=");
    push_dec(&mut out, offset as u64);
    out.append(" magic=0x");
    push_hex(&mut out, h.magic, 8);
    out.append(" version=");
    push_dec(&mut out, h.version as u64);
    out.append(" kind=");
    out.append(kind_name(h.kind));
    out.append(" src=");
    out.append(node_name(h.src_node));
    out.append(" dst=");
    out.append(node_name(h.dst_node));
    out.append(" seq=");
    push_dec(&mut out, h.seq as u64);
    out.append(" t_us=");
    push_dec(&mut out, h.t_us as u64);
    out.append(" payload_len=");
    push_dec(&mut out, h.payload_len as u64);
    out.append(" crc16=0x");
    push_hex(&mut out, h.crc16 as u32, 4);
    out.append(" CRC=OK\n");
    out.append(payload.as_str());
    out
}

/// What a capture holds: validated frames, frames that failed validation, and
/// validated frames of an unknown type.
#[derive(Clone, Copy, Debug, PartialEq, Eq, Structural)]
pub struct Tally {
    pub frames: u64,
    pub crc_errors: u64,
    pub unknown_kinds: u64,
}

/// The number of events that `pick` picks.
pub open spec fn count_events(events: Seq<EventView>, pick: spec_fn(EventView) -> bool) -> nat
    decreases events.len(),
{
    if events.len() == 0 {
        0
    } else {
        count_events(events.drop_last(), pick) + if pick(events.last()) { 1nat } else { 0 }
    }
}

/// Counts what a scan found.
pub fn tally(events: &Vec<Event<'_>>) -> (t: Tally)
    ensures
        t.frames == count_events(
            crate::capture::views(events@),
            |e: EventView| e is Frame,
        ),
        t.crc_errors == count_events(
            crate::capture::views(events@),
            |e: EventView| e is BadFrame,
        ),
        t.unknown_kinds == count_events(
            crate::capture::views(events@),
            |e: EventView| e is Frame && !known_kind(e->Frame_hdr.kind),
        ),
{
    let mut t = Tally { frames: 0, crc_errors: 0, unknown_kinds: 0 };
    let ghost all = crate::capture::views(events@);
    let mut i: usize = 0;
    while i < events.len()
        invariant
            i <= events@.len(),
            all == crate::capture::views(events@),
            t.frames <= i && t.crc_errors <= i && t.unknown_kinds <= i,
            t.frames == count_events(all.take(i as int), |e: EventView| e is Frame),
            t.crc_errors == count_events(all.take(i as int), |e: EventView| e is BadFrame),
            t.unknown_kinds == count_events(
                all.take(i as int),
                |e: EventView| e is Frame && !known_kind(e->Frame_hdr.kind),
            ),
        decreases events@.len() - i,
    {
        match &events[i] {
            Event::Frame { hdr, .. } => {
                t.frames += 1;
                if !is_known_kind(hdr.kind) {
                    t.unknown_kinds += 1;
                }
            },
            Event::BadFrame { .. } => {
                t.crc_errors += 1;
            },
            Event::Truncated { .. } => {},
        }
        i += 1;
        assert(all.take(i as int).drop_last() =~= all.take(i - 1));
        assert(all[i - 1] == events@[i - 1]@);
    }
    assert(all.take(i as int) =~= all);
    t
}

/// Whether a decoding run counts as failed: it saw a corrupt frame or an
/// unknown frame type, and neither is tolerated.
pub fn run_failed(t: &Tally, tolerate: bool) -> (failed: bool)
    ensures
        failed == (!tolerate && (t.crc_errors > 0 || t.unknown_kinds > 0)),
{
    !tolerate && (t.crc_errors > 0 || t.unknown_kinds > 0)
}

} // verus!

//! What the transmitter and receiver roles count and print.

use vstd::prelude::*;
use vstd::string::StringExecFns;

use crate::integration::common::{
    field_number, field_text, field_views, format_summary, plain_field, role_text, summary_line,
    view_map, FieldView, Role, REPORT_EVERY, SNAPSHOT_EVERY,
};
use crate::protocol::payloads::{feature_report_at, parse_data_payload, parse_feature_report};
use crate::protocol::{frame_type, header_at, intact, node, payload_at};
use crate::text::{lacks, nat_text, push_dec, trim};
use crate::transport::pairer::pushed;
use crate::transport::tracker::tracker_step;
use crate::transport::{parse_frame, Pairer, SequenceTracker};

verus! {

/// How long a link stays silent before its tail counts as drained.
pub const TAIL_QUIET_US: u64 = 20_000;

/// Whether draining the tail of a run is over: the last read brought nothing
/// and the link has been silent long enough, or the time allowed is up.
pub fn tail_is_over(got: bool, quiet_us: u64, elapsed_us: u64, cap_us: u64) -> (over: bool)
    ensures
        over == ((!got && quiet_us >= 20_000) || elapsed_us >= cap_us),
{
    (!got && quiet_us >= TAIL_QUIET_US) || elapsed_us >= cap_us
}

/// The transmitter's view of the receivers' reports.
pub struct TxTally {
    pub pairer: Pairer,
    pub reports_rx1: u64,
    pub reports_rx2: u64,
    pub snapshots_rx: u64,
}

/// `buf` is an intact frame with a complete feature report.
pub open spec fn holds_report(buf: Seq<u8>) -> bool {
    &&& intact(buf)
    &&& header_at(buf).kind == frame_type::FEATURE_REPORT
    &&& payload_at(buf).len() >= 79
}

impl TxTally {
    pub fn new(tolerance: u32) -> (t: Self)
        ensures
            t.pairer.well_formed(),
            t.pairer.unused(tolerance),
            t.reports_rx1 == 0 && t.reports_rx2 == 0 && t.snapshots_rx == 0,
    {
        Self { pairer: Pairer::new(tolerance), reports_rx1: 0, reports_rx2: 0, snapshots_rx: 0 }
    }

    /// Takes a received datagram: counts and buffers a report, counts a
    /// snapshot, ignores anything else. In the tail of a run every report that
    /// is not RX1's counts as RX2's.
    pub fn receive(&mut self, buf: &[u8], now_us: u64, tail: bool)
        requires
            old(self).pairer.well_formed(),
            holds_report(buf@) && header_at(buf@).src_node == node::RX1 ==> old(self).reports_rx1
                < u64::MAX,
            holds_report(buf@) && header_at(buf@).src_node != node::RX1 ==> old(self).reports_rx2
                < u64::MAX,
            intact(buf@) && header_at(buf@).kind == frame_type::CSI_SNAPSHOT ==> old(
                self,
            ).snapshots_rx < u64::MAX,
        ensures
            final(self).pairer.well_formed(),
            holds_report(buf@) ==> {
                let src = header_at(buf@).src_node;
                &&& exists|fr: crate::protocol::FeatureReport| #[trigger]
                    feature_report_at(payload_at(buf@), fr) && pushed(
                        &old(self).pairer,
                        &final(self).pairer,
                        src,
                        fr,
                        now_us,
                    )
                &&& final(self).reports_rx1 == old(self).reports_rx1 + if src == node::RX1 {
                    1int
                } else {
                    0
                }
                &&& final(self).reports_rx2 == old(self).reports_rx2 + if src == node::RX2 || (
                tail && src != node::RX1) {
                    1int
                } else {
                    0
                }
            },
            !holds_report(buf@) ==> {
                &&& final(self).pairer == old(self).pairer
                &&& final(self).reports_rx1 == old(self).reports_rx1
                &&& final(self).reports_rx2 == old(self).reports_rx2
            },
            final(self).snapshots_rx == old(self).snapshots_rx + if intact(buf@) && header_at(
                buf@,
            ).kind == frame_type::CSI_SNAPSHOT {
                1int
            } else {
                0
            },
    {
        if let Some((kind, src, _seq, payload)) = parse_frame(buf) {
            if kind == frame_type::FEATURE_REPORT {
                if let Some(fr) = parse_feature_report(payload) {
                    if src == node::RX1 {
                        self.reports_rx1 += 1;
                    } else if tail || src == node::RX2 {
                        self.reports_rx2 += 1;
                    }
                    self.pairer.push(src, fr, now_us);
                    assert(feature_report_at(payload_at(buf@), fr));
                }
            } else if kind == frame_type::CSI_SNAPSHOT {
                self.snapshots_rx += 1;
            }
        }
    }
}

/// The transmit power that the test pattern announces in frame `seq`.
pub fn announced_power(seq: u32) -> (p: u8)
    ensures
        p == 20 + seq % 15,
{
    20 + (seq % 15) as u8
}

/// What a receiver does with a datagram.
#[derive(Clone, Copy, Debug, PartialEq, Eq, Structural)]
pub enum RxStep {
    /// Not a measurement frame.
    Ignored,
    /// Process frame `seq` sent at `tx_power`; then send a report or a
    /// snapshot where due.
    Measured { seq: u32, tx_power: u8, report_due: bool, snapshot_due: bool },
}

/// A receiver's counters.
pub struct RxTally {
    pub tracker: SequenceTracker,
    pub frames_rx: u64,
    pub crc_fail: u64,
    pub non_data: u64,
    pub last_seq: u32,
    pub tx_power: u8,
}

impl RxTally {
    pub fn new() -> (t: Self)
        ensures
            t.tracker@ == crate::transport::tracker::tracker_start(),
            t.tracker.well_formed(),
            t.frames_rx == 0 && t.crc_fail == 0 && t.non_data == 0 && t.last_seq == 0,
            t.tx_power == 20,
    {
        Self {
            tracker: SequenceTracker::new(),
            frames_rx: 0,
            crc_fail: 0,
            non_data: 0,
            last_seq: 0,
            tx_power: 20,
        }
    }

    /// Takes a received datagram. In the tail of a run, frames that are corrupt
    /// or of another type are not counted.
    pub fn receive(&mut self, buf: &[u8], tail: bool) -> (step: RxStep)
        requires
            old(self).tracker.well_formed(),
            intact(buf@) && header_at(buf@).kind == frame_type::DATA_FRAME ==> tracker_step(
                old(self).tracker@,
                header_at(buf@).seq,
            ).total <= u64::MAX && old(self).frames_rx < u64::MAX,
            !tail && !intact(buf@) ==> old(self).crc_fail < u64::MAX,
            !tail && intact(buf@) && header_at(buf@).kind != frame_type::DATA_FRAME ==> old(
                self,
            ).non_data < u64::MAX,
        ensures
            final(self).tracker.well_formed(),
            ({
                let data = intact(buf@) && header_at(buf@).kind == frame_type::DATA_FRAME;
                &&& final(self).crc_fail == old(self).crc_fail + if !tail && !intact(buf@) {
                    1int
                } else {
                    0
                }
                &&& final(self).non_data == old(self).non_data + if !tail && intact(buf@) && !data {
                    1int
                } else {
                    0
                }
                &&& !data ==> {
                    &&& step == RxStep::Ignored
                    &&& final(self).tracker@ == old(self).tracker@
                    &&& final(self).frames_rx == old(self).frames_rx
                    &&& final(self).last_seq == old(self).last_seq
                    &&& final(self).tx_power == old(self).tx_power
                }
                &&& data ==> {
                    let seq = header_at(buf@).seq;
                    let p = payload_at(buf@);
                    let n = old(self).frames_rx + 1;
                    &&& final(self).tracker@ == tracker_step(old(self).tracker@, seq)
                    &&& final(self).frames_rx == n
                    &&& final(self).last_seq == seq
                    &&& final(self).tx_power == if p.len() >= 2 { p[0] } else { old(self).tx_power }
                    &&& step == (RxStep::Measured {
                        seq,
                        tx_power: final(self).tx_power,
                        report_due: n % 20 == 0,
                        snapshot_due: n % 100 == 0,
                    })
                }
            }),
    {
        match parse_frame(buf) {
            None => {
                if !tail {
                    self.crc_fail += 1;
                }
                RxStep::Ignored
            },
            Some((kind, _src, seq, payload)) => {
                if kind != frame_type::DATA_FRAME {
                    if !tail {
                        self.non_data += 1;
                    }
                    return RxStep::Ignored;
                }
                let _ = self.tracker.observe(seq);
                self.frames_rx += 1;
                self.last_seq = seq;
                if let Some(dp) = parse_data_payload(payload) {
                    self.tx_power = dp.tx_power_db;
                }
                RxStep::Measured {
                    seq,
                    tx_power: self.tx_power,
                    report_due: self.frames_rx % (REPORT_EVERY as u64) == 0,
                    snapshot_due: self.frames_rx % (SNAPSHOT_EVERY as u64) == 0,
                }
            },
        }
    }
}

/// A number as text.
fn number(v: u64) -> (s: String)
    ensures
        s@ == nat_text(v as nat),
{
    let mut s: String = String::new();
    push_dec(&mut s, v);
    assert(s@ =~= nat_text(v as nat));
    s
}

/// The transmitter's summary line.
pub open spec fn tx_fields(frames_sent: u64, reports_rx1: u64, reports_rx2: u64, pairs_total: u64, snapshots_rx: u64, fused_outputs: u64, final_state: Seq<char>) -> Seq<FieldView> {
    seq![
        FieldView { key: "role"@, value: "tx"@ },
        FieldView { key: "frames_sent"@, value: nat_text(frames_sent as nat) },
        FieldView { key: "reports_rx1"@, value: nat_text(reports_rx1 as nat) },
        FieldView { key: "reports_rx2"@, value: nat_text(reports_rx2 as nat) },
        FieldView { key: "pairs_total"@, value: nat_text(pairs_total as nat) },
        FieldView { key: "snapshots_rx"@, value: nat_text(snapshots_rx as nat) },
        FieldView { key: "fused_outputs"@, value: nat_text(fused_outputs as nat) },
        FieldView { key: "final_state"@, value: final_state },
    ]
}

/// The transmitter's summary line.
pub fn tx_summary(frames_sent: u64, reports_rx1: u64, reports_rx2: u64, pairs_total: u64, snapshots_rx: u64, fused_outputs: u64, final_state: &str) -> (line: String)
    ensures
        line@ == summary_line(tx_fields(frames_sent, reports_rx1, reports_rx2, pairs_total, snapshots_rx, fused_outputs, final_state@)),
{
    let mut f: Vec<(&'static str, String)> = Vec::new();
    f.push(("role", "tx".to_owned()));
    f.push(("frames_sent", number(frames_sent)));
    f.push(("reports_rx1", number(reports_rx1)));
    f.push(("reports_rx2", number(reports_rx2)));
    f.push(("pairs_total", number(pairs_total)));
    f.push(("snapshots_rx", number(snapshots_rx)));
    f.push(("fused_outputs", number(fused_outputs)));
    f.push(("final_state", final_state.to_owned()));
    assert(field_views(f@) =~= tx_fields(frames_sent, reports_rx1, reports_rx2, pairs_total, snapshots_rx, fused_outputs, final_state@));
    format_summary(&f)
}

/// A receiver's summary line.
pub open spec fn rx_fields(role: Role, frames_rx: u64, crc_fail: u64, non_data: u64, lost: u64, total: u64, gaps: u64, resyncs: u64, reports_sent: u64, snapshots_sent: u64, last_seq: u64) -> Seq<FieldView> {
    seq![
        FieldView { key: "role"@, value: role_text(role) },
        FieldView { key: "frames_rx"@, value: nat_text(frames_rx as nat) },
        FieldView { key: "crc_fail"@, value: nat_text(crc_fail as nat) },
        FieldView { key: "non_data"@, value: nat_text(non_data as nat) },
        FieldView { key: "lost"@, value: nat_text(lost as nat) },
        FieldView { key: "total"@, value: nat_text(total as nat) },
        FieldView { key: "gaps"@, value: nat_text(gaps as nat) },
        FieldView { key: "resyncs"@, value: nat_text(resyncs as nat) },
        FieldView { key: "reports_sent"@, value: nat_text(reports_sent as nat) },
        FieldView { key: "snapshots_sent"@, value: nat_text(snapshots_sent as nat) },
        FieldView { key: "last_seq"@, value: nat_text(last_seq as nat) },
    ]
}

/// A receiver's summary line.
pub fn rx_summary(role: Role, frames_rx: u64, crc_fail: u64, non_data: u64, lost: u64, total: u64, gaps: u64, resyncs: u64, reports_sent: u64, snapshots_sent: u64, last_seq: u64) -> (line: String)
    ensures
        line@ == summary_line(rx_fields(role, frames_rx, crc_fail, non_data, lost, total, gaps, resyncs, reports_sent, snapshots_sent, last_seq)),
{
    let mut f: Vec<(&'static str, String)> = Vec::new();
    f.push(("role", role.as_str().to_owned()));
    f.push(("frames_rx", number(frames_rx)));
    f.push(("crc_fail", number(crc_fail)));
    f.push(("non_data", number(non_data)));
    f.push(("lost", number(lost)));
    f.push(("total", number(total)));
    f.push(("gaps", number(gaps)));
    f.push(("resyncs", number(resyncs)));
    f.push(("reports_sent", number(reports_sent)));
    f.push(("snapshots_sent", number(snapshots_sent)));
    f.push(("last_seq", number(last_seq)));
    assert(field_views(f@) =~= rx_fields(role, frames_rx, crc_fail, non_data, lost, total, gaps, resyncs, reports_sent, snapshots_sent, last_seq));
    format_summary(&f)
}

/// The orchestrator reads every number of the transmitter's summary line back
/// from it.
pub proof fn tx_summary_is_read_back(
    frames_sent: u64,
    reports_rx1: u64,
    reports_rx2: u64,
    pairs_total: u64,
    snapshots_rx: u64,
    fused_outputs: u64,
    final_state: Seq<char>,
)
    requires
        lacks(final_state, '|'),
        trim(final_state) == final_state,
        final_state.len() > 0 ==> !crate::text::is_space(final_state.last()),
    ensures
        ({
            let fields = tx_fields(frames_sent, reports_rx1, reports_rx2, pairs_total, snapshots_rx, fused_outputs, final_state);
            let m = view_map(fields);
            &&& crate::integration::common::summary_of(summary_line(fields)) == Some(m)
            &&& field_number(m, "frames_sent"@) == frames_sent
            &&& field_number(m, "reports_rx1"@) == reports_rx1
            &&& field_number(m, "reports_rx2"@) == reports_rx2
            &&& field_number(m, "pairs_total"@) == pairs_total
            &&& field_number(m, "snapshots_rx"@) == snapshots_rx
            &&& field_number(m, "fused_outputs"@) == fused_outputs
            &&& field_text(m, "final_state"@) == final_state
        }),
{
    let fields = tx_fields(frames_sent, reports_rx1, reports_rx2, pairs_total, snapshots_rx, fused_outputs, final_state);
    let m = view_map(fields);
    reveal_strlit("role");
    reveal_strlit("frames_sent");
    reveal_strlit("reports_rx1");
    reveal_strlit("reports_rx2");
    reveal_strlit("pairs_total");
    reveal_strlit("snapshots_rx");
    reveal_strlit("fused_outputs");
    reveal_strlit("final_state");
    reveal_strlit("tx");
    crate::integration::common::number_field_is_plain(frames_sent as nat);
    crate::integration::common::number_field_is_plain(reports_rx1 as nat);
    crate::integration::common::number_field_is_plain(reports_rx2 as nat);
    crate::integration::common::number_field_is_plain(pairs_total as nat);
    crate::integration::common::number_field_is_plain(snapshots_rx as nat);
    crate::integration::common::number_field_is_plain(fused_outputs as nat);
    assert forall|i: int| 0 <= i < fields.len() implies plain_field(#[trigger] fields[i]) by {
        crate::text::trim_of_trimmed(fields[i].key);
        crate::text::trim_of_trimmed("tx"@);
    }
    crate::integration::common::summary_round_trip(fields);
    distinct_tx_keys();
    reveal_with_fuel(view_map, 9);
    let f7 = fields.drop_last();
    let f6 = f7.drop_last();
    let f5 = f6.drop_last();
    let f4 = f5.drop_last();
    let f3 = f4.drop_last();
    let f2 = f3.drop_last();
    let f1 = f2.drop_last();
    let f0 = f1.drop_last();
    assert(f0 =~= Seq::empty());
    assert(f1.last() == fields[0]);
    assert(f2.last() == fields[1]);
    assert(f3.last() == fields[2]);
    assert(f4.last() == fields[3]);
    assert(f5.last() == fields[4]);
    assert(f6.last() == fields[5]);
    assert(f7.last() == fields[6]);
    assert(fields.last() == fields[7]);
}

/// The names of the transmitter's fields differ.
proof fn distinct_tx_keys()
    ensures
        "role"@ != "frames_sent"@,
        "role"@ != "reports_rx1"@,
        "role"@ != "reports_rx2"@,
        "role"@ != "pairs_total"@,
        "role"@ != "snapshots_rx"@,
        "role"@ != "fused_outputs"@,
        "role"@ != "final_state"@,
        "frames_sent"@ != "reports_rx1"@,
        "frames_sent"@ != "reports_rx2"@,
        "frames_sent"@ != "pairs_total"@,
        "frames_sent"@ != "snapshots_rx"@,
        "frames_sent"@ != "fused_outputs"@,
        "frames_sent"@ != "final_state"@,
        "reports_rx1"@ != "reports_rx2"@,
        "reports_rx1"@ != "pairs_total"@,
        "reports_rx1"@ != "snapshots_rx"@,
        "reports_rx1"@ != "fused_outputs"@,
        "reports_rx1"@ != "final_state"@,
        "reports_rx2"@ != "pairs_total"@,
        "reports_rx2"@ != "snapshots_rx"@,
        "reports_rx2"@ != "fused_outputs"@,
        "reports_rx2"@ != "final_state"@,
        "pairs_total"@ != "snapshots_rx"@,
        "pairs_total"@ != "fused_outputs"@,
        "pairs_total"@ != "final_state"@,
        "snapshots_rx"@ != "fused_outputs"@,
        "snapshots_rx"@ != "final_state"@,
        "fused_outputs"@ != "final_state"@,
{
    reveal_strlit("role");
    reveal_strlit("frames_sent");
    reveal_strlit("reports_rx1");
    reveal_strlit("reports_rx2");
    reveal_strlit("pairs_total");
    reveal_strlit("snapshots_rx");
    reveal_strlit("fused_outputs");
    reveal_strlit("final_state");
    assert("role"@.len() != "frames_sent"@.len());
    assert("role"@.len() != "reports_rx1"@.len());
    assert("role"@.len() != "reports_rx2"@.len());
    assert("role"@.len() != "pairs_total"@.len());
    assert("role"@.len() != "snapshots_rx"@.len());
    assert("role"@.len() != "fused_outputs"@.len());
    assert("role"@.len() != "final_state"@.len());
    assert("frames_sent"@[0] != "reports_rx1"@[0]);
    assert("frames_sent"@[0] != "reports_rx2"@[0]);
    assert("frames_sent"@[0] != "pairs_total"@[0]);
    assert("frames_sent"@.len() != "snapshots_rx"@.len());
    assert("frames_sent"@.len() != "fused_outputs"@.len());
    assert("frames_sent"@[1] != "final_state"@[1]);
    assert("reports_rx1"@[10] != "reports_rx2"@[10]);
    assert("reports_rx1"@[0] != "pairs_total"@[0]);
    assert("reports_rx1"@.len() != "snapshots_rx"@.len());
    assert("reports_rx1"@.len() != "fused_outputs"@.len());
    assert("reports_rx1"@[0] != "final_state"@[0]);
    assert("reports_rx2"@[0] != "pairs_total"@[0]);
    assert("reports_rx2"@.len() != "snapshots_rx"@.len());
    assert("reports_rx2"@.len() != "fused_outputs"@.len());
    assert("reports_rx2"@[0] != "final_state"@[0]);
    assert("pairs_total"@.len() != "snapshots_rx"@.len());
    assert("pairs_total"@.len() != "fused_outputs"@.len());
    assert("pairs_total"@[0] != "final_state"@[0]);
    assert("snapshots_rx"@.len() != "fused_outputs"@.len());
    assert("snapshots_rx"@.len() != "final_state"@.len());
    assert("fused_outputs"@.len() != "final_state"@.len());
}

/// The orchestrator reads every number of a receiver's summary line back from
/// it.
pub proof fn rx_summary_is_read_back(
    role: Role,
    frames_rx: u64,
    crc_fail: u64,
    non_data: u64,
    lost: u64,
    total: u64,
    gaps: u64,
    resyncs: u64,
    reports_sent: u64,
    snapshots_sent: u64,
    last_seq: u64,
)
    ensures
        ({
            let fields = rx_fields(role, frames_rx, crc_fail, non_data, lost, total, gaps, resyncs, reports_sent, snapshots_sent, last_seq);
            let m = view_map(fields);
            &&& crate::integration::common::summary_of(summary_line(fields)) == Some(m)
            &&& field_number(m, "frames_rx"@) == frames_rx
            &&& field_number(m, "crc_fail"@) == crc_fail
            &&& field_number(m, "non_data"@) == non_data
            &&& field_number(m, "lost"@) == lost
            &&& field_number(m, "total"@) == total
            &&& field_number(m, "gaps"@) == gaps
            &&& field_number(m, "resyncs"@) == resyncs
            &&& field_number(m, "reports_sent"@) == reports_sent
            &&& field_number(m, "snapshots_sent"@) == snapshots_sent
            &&& field_number(m, "last_seq"@) == last_seq
        }),
{
    let fields = rx_fields(role, frames_rx, crc_fail, non_data, lost, total, gaps, resyncs, reports_sent, snapshots_sent, last_seq);
    let m = view_map(fields);
    reveal_strlit("role");
    reveal_strlit("frames_rx");
    reveal_strlit("crc_fail");
    reveal_strlit("non_data");
    reveal_strlit("lost");
    reveal_strlit("total");
    reveal_strlit("gaps");
    reveal_strlit("resyncs");
    reveal_strlit("reports_sent");
    reveal_strlit("snapshots_sent");
    reveal_strlit("last_seq");
    reveal_strlit("tx");
    reveal_strlit("rx1");
    reveal_strlit("rx2");
    crate::integration::common::number_field_is_plain(frames_rx as nat);
    crate::integration::common::number_field_is_plain(crc_fail as nat);
    crate::integration::common::number_field_is_plain(non_data as nat);
    crate::integration::common::number_field_is_plain(lost as nat);
    crate::integration::common::number_field_is_plain(total as nat);
    crate::integration::common::number_field_is_plain(gaps as nat);
    crate::integration::common::number_field_is_plain(resyncs as nat);
    crate::integration::common::number_field_is_plain(reports_sent as nat);
    crate::integration::common::number_field_is_plain(snapshots_sent as nat);
    crate::integration::common::number_field_is_plain(last_seq as nat);
    assert forall|i: int| 0 <= i < fields.len() implies plain_field(#[trigger] fields[i]) by {
        crate::text::trim_of_trimmed(fields[i].key);
        crate::text::trim_of_trimmed(role_text(role));
    }
    crate::integration::common::summary_round_trip(fields);
    distinct_rx_keys();
    reveal_with_fuel(view_map, 12);
    let f10 = fields.drop_last();
    let f9 = f10.drop_last();
    let f8 = f9.drop_last();
    let f7 = f8.drop_last();
    let f6 = f7.drop_last();
    let f5 = f6.drop_last();
    let f4 = f5.drop_last();
    let f3 = f4.drop_last();
    let f2 = f3.drop_last();
    let f1 = f2.drop_last();
    let f0 = f1.drop_last();
    assert(f0 =~= Seq::empty());
    assert(f1.last() == fields[0]);
    assert(f2.last() == fields[1]);
    assert(f3.last() == fields[2]);
    assert(f4.last() == fields[3]);
    assert(f5.last() == fields[4]);
    assert(f6.last() == fields[5]);
    assert(f7.last() == fields[6]);
    assert(f8.last() == fields[7]);
    assert(f9.last() == fields[8]);
    assert(f10.last() == fields[9]);
    assert(fields.last() == fields[10]);
}

/// The names of a receiver's fields differ.
proof fn distinct_rx_keys()
    ensures
        "role"@ != "frames_rx"@,
        "role"@ != "crc_fail"@,
        "role"@ != "non_data"@,
        "role"@ != "lost"@,
        "role"@ != "total"@,
        "role"@ != "gaps"@,
        "role"@ != "resyncs"@,
        "role"@ != "reports_sent"@,
        "role"@ != "snapshots_sent"@,
        "role"@ != "last_seq"@,
        "frames_rx"@ != "crc_fail"@,
        "frames_rx"@ != "non_data"@,
        "frames_rx"@ != "lost"@,
        "frames_rx"@ != "total"@,
        "frames_rx"@ != "gaps"@,
        "frames_rx"@ != "resyncs"@,
        "frames_rx"@ != "reports_sent"@,
        "frames_rx"@ != "snapshots_sent"@,
        "frames_rx"@ != "last_seq"@,
        "crc_fail"@ != "non_data"@,
        "crc_fail"@ != "lost"@,
        "crc_fail"@ != "total"@,
        "crc_fail"@ != "gaps"@,
        "crc_fail"@ != "resyncs"@,
        "crc_fail"@ != "reports_sent"@,
        "crc_fail"@ != "snapshots_sent"@,
        "crc_fail"@ != "last_seq"@,
        "non_data"@ != "lost"@,
        "non_data"@ != "total"@,
        "non_data"@ != "gaps"@,
        "non_data"@ != "resyncs"@,
        "non_data"@ != "reports_sent"@,
        "non_data"@ != "snapshots_sent"@,
        "non_data"@ != "last_seq"@,
        "lost"@ != "total"@,
        "lost"@ != "gaps"@,
        "lost"@ != "resyncs"@,
        "lost"@ != "reports_sent"@,
        "lost"@ != "snapshots_sent"@,
        "lost"@ != "last_seq"@,
        "total"@ != "gaps"@,
        "total"@ != "resyncs"@,
        "total"@ != "reports_sent"@,
        "total"@ != "snapshots_sent"@,
        "total"@ != "last_seq"@,
        "gaps"@ != "resyncs"@,
        "gaps"@ != "reports_sent"@,
        "gaps"@ != "snapshots_sent"@,
        "gaps"@ != "last_seq"@,
        "resyncs"@ != "reports_sent"@,
        "resyncs"@ != "snapshots_sent"@,
        "resyncs"@ != "last_seq"@,
        "reports_sent"@ != "snapshots_sent"@,
        "reports_sent"@ != "last_seq"@,
        "snapshots_sent"@ != "last_seq"@,
{
    reveal_strlit("role");
    reveal_strlit("frames_rx");
    reveal_strlit("crc_fail");
    reveal_strlit("non_data");
    reveal_strlit("lost");
    reveal_strlit("total");
    reveal_strlit("gaps");
    reveal_strlit("resyncs");
    reveal_strlit("reports_sent");
    reveal_strlit("snapshots_sent");
    reveal_strlit("last_seq");
    assert("role"@.len() != "frames_rx"@.len());
    assert("role"@.len() != "crc_fail"@.len());
    assert("role"@.len() != "non_data"@.len());
    assert("role"@[0] != "lost"@[0]);
    assert("role"@.len() != "total"@.len());
    assert("role"@[0] != "gaps"@[0]);
    assert("role"@.len() != "resyncs"@.len());
    assert("role"@.len() != "reports_sent"@.len());
    assert("role"@.len() != "snapshots_sent"@.len());
    assert("role"@.len() != "last_seq"@.len());
    assert("frames_rx"@.len() != "crc_fail"@.len());
    assert("frames_rx"@.len() != "non_data"@.len());
    assert("frames_rx"@.len() != "lost"@.len());
    assert("frames_rx"@.len() != "total"@.len());
    assert("frames_rx"@.len() != "gaps"@.len());
    assert("frames_rx"@.len() != "resyncs"@.len());
    assert("frames_rx"@.len() != "reports_sent"@.len());
    assert("frames_rx"@.len() != "snapshots_sent"@.len());
    assert("frames_rx"@.len() != "last_seq"@.len());
    assert("crc_fail"@[0] != "non_data"@[0]);
    assert("crc_fail"@.len() != "lost"@.len());
    assert("crc_fail"@.len() != "total"@.len());
    assert("crc_fail"@.len() != "gaps"@.len());
    assert("crc_fail"@.len() != "resyncs"@.len());
    assert("crc_fail"@.len() != "reports_sent"@.len());
    assert("crc_fail"@.len() != "snapshots_sent"@.len());
    assert("crc_fail"@[0] != "last_seq"@[0]);
    assert("non_data"@.len() != "lost"@.len());
    assert("non_data"@.len() != "total"@.len());
    assert("non_data"@.len() != "gaps"@.len());
    assert("non_data"@.len() != "resyncs"@.len());
    assert("non_data"@.len() != "reports_sent"@.len());
    assert("non_data"@.len() != "snapshots_sent"@.len());
    assert("non_data"@[0] != "last_seq"@[0]);
    assert("lost"@.len() != "total"@.len());
    assert("lost"@[0] != "gaps"@[0]);
    assert("lost"@.len() != "resyncs"@.len());
    assert("lost"@.len() != "reports_sent"@.len());
    assert("lost"@.len() != "snapshots_sent"@.len());
    assert("lost"@.len() != "last_seq"@.len());
    assert("total"@.len() != "gaps"@.len());
    assert("total"@.len() != "resyncs"@.len());
    assert("total"@.len() != "reports_sent"@.len());
    assert("total"@.len() != "snapshots_sent"@.len());
    assert("total"@.len() != "last_seq"@.len());
    assert("gaps"@.len() != "resyncs"@.len());
    assert("gaps"@.len() != "reports_sent"@.len());
    assert("gaps"@.len() != "snapshots_sent"@.len());
    assert("gaps"@.len() != "last_seq"@.len());
    assert("resyncs"@.len() != "reports_sent"@.len());
    assert("resyncs"@.len() != "snapshots_sent"@.len());
    assert("resyncs"@.len() != "last_seq"@.len());
    assert("reports_sent"@.len() != "snapshots_sent"@.len());
    assert("reports_sent"@.len() != "last_seq"@.len());
    assert("snapshots_sent"@.len() != "last_seq"@.len());
}

} // verus!

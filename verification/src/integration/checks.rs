//! The checks that the orchestrator runs on the roles' summaries.

use vstd::prelude::*;
use vstd::string::StringExecFns;

use crate::integration::common::{field_number, get_u64, Summary, REPORT_EVERY};
use crate::text::{has_prefix, nat_text, push_dec};

verus! {

/// One check: its name, whether it passed, and the figures behind it.
pub struct CheckView {
    pub name: Seq<char>,
    pub pass: bool,
    pub detail: Seq<char>,
}

/// The views of a list of checks.
pub open spec fn check_views(c: Seq<(String, bool, String)>) -> Seq<CheckView> {
    c.map_values(|x: (String, bool, String)| CheckView { name: x.0@, pass: x.1, detail: x.2@ })
}

/// The figures of a run.
#[derive(Clone, Copy, Debug, PartialEq, Eq, Structural)]
pub struct Figures {
    pub frames_sent: u64,
    pub rx1_rx: u64,
    pub rx2_rx: u64,
    pub rx1_crc: u64,
    pub rx2_crc: u64,
    pub rx1_lost: u64,
    pub rx2_lost: u64,
    pub rx1_total: u64,
    pub rx2_total: u64,
    pub rx1_resyncs: u64,
    pub rx2_resyncs: u64,
    pub rx1_gaps: u64,
    pub rx2_gaps: u64,
    pub reports_rx1: u64,
    pub reports_rx2: u64,
    pub pairs_total: u64,
    pub snapshots_rx: u64,
    pub fused_outputs: u64,
}

/// The figures that the three summaries hold; a missing one counts as 0.
pub open spec fn figures_of(
    tx: Map<Seq<char>, Seq<char>>,
    rx1: Map<Seq<char>, Seq<char>>,
    rx2: Map<Seq<char>, Seq<char>>,
) -> Figures {
    Figures {
        frames_sent: field_number(tx, "frames_sent"@) as u64,
        rx1_rx: field_number(rx1, "frames_rx"@) as u64,
        rx2_rx: field_number(rx2, "frames_rx"@) as u64,
        rx1_crc: field_number(rx1, "crc_fail"@) as u64,
        rx2_crc: field_number(rx2, "crc_fail"@) as u64,
        rx1_lost: field_number(rx1, "lost"@) as u64,
        rx2_lost: field_number(rx2, "lost"@) as u64,
        rx1_total: field_number(rx1, "total"@) as u64,
        rx2_total: field_number(rx2, "total"@) as u64,
        rx1_resyncs: field_number(rx1, "resyncs"@) as u64,
        rx2_resyncs: field_number(rx2, "resyncs"@) as u64,
        rx1_gaps: field_number(rx1, "gaps"@) as u64,
        rx2_gaps: field_number(rx2, "gaps"@) as u64,
        reports_rx1: field_number(tx, "reports_rx1"@) as u64,
        reports_rx2: field_number(tx, "reports_rx2"@) as u64,
        pairs_total: field_number(tx, "pairs_total"@) as u64,
        snapshots_rx: field_number(tx, "snapshots_rx"@) as u64,
        fused_outputs: field_number(tx, "fused_outputs"@) as u64,
    }
}

/// Reads the figures out of the three summaries.
pub fn figures(tx: &Summary, rx1: &Summary, rx2: &Summary) -> (f: Figures)
    ensures
        f == figures_of(tx@, rx1@, rx2@),
{
    Figures {
        frames_sent: get_u64(tx, "frames_sent"),
        rx1_rx: get_u64(rx1, "frames_rx"),
        rx2_rx: get_u64(rx2, "frames_rx"),
        rx1_crc: get_u64(rx1, "crc_fail"),
        rx2_crc: get_u64(rx2, "crc_fail"),
        rx1_lost: get_u64(rx1, "lost"),
        rx2_lost: get_u64(rx2, "lost"),
        rx1_total: get_u64(rx1, "total"),
        rx2_total: get_u64(rx2, "total"),
        rx1_resyncs: get_u64(rx1, "resyncs"),
        rx2_resyncs: get_u64(rx2, "resyncs"),
        rx1_gaps: get_u64(rx1, "gaps"),
        rx2_gaps: get_u64(rx2, "gaps"),
        reports_rx1: get_u64(tx, "reports_rx1"),
        reports_rx2: get_u64(tx, "reports_rx2"),
        pairs_total: get_u64(tx, "pairs_total"),
        snapshots_rx: get_u64(tx, "snapshots_rx"),
        fused_outputs: get_u64(tx, "fused_outputs"),
    }
}

/// `num / den` is at least `pct` percent; nothing of nothing is 0 percent.
pub open spec fn at_least_pct(num: u64, den: u64, pct: int) -> bool {
    den > 0 && 100 * num >= pct * den
}

/// `num / den` is at most one percent; nothing of nothing is 0 percent.
pub open spec fn at_most_one_pct(num: u64, den: u64) -> bool {
    den == 0 || 100 * num <= den
}

fn reaches(num: u64, den: u64, pct: u64) -> (r: bool)
    requires
        pct <= 100,
    ensures
        r == at_least_pct(num, den, pct as int),
{
    assert(pct * den <= 100 * 0xffff_ffff_ffff_ffff) by (nonlinear_arith)
        requires
            pct <= 100,
            den <= 0xffff_ffff_ffff_ffff,
    ;
    den > 0 && 100 * (num as u128) >= (pct as u128) * (den as u128)
}

fn within_one(num: u64, den: u64) -> (r: bool)
    ensures
        r == at_most_one_pct(num, den),
{
    den == 0 || 100 * (num as u128) <= den as u128
}

/// The number of reports that two receivers owe for the frames sent.
pub open spec fn expected_reports(f: Figures) -> u64 {
    (2 * (f.frames_sent / 20)) as u64
}

/// The reports of the less active receiver.
pub open spec fn smaller_link(f: Figures) -> u64 {
    if f.reports_rx1 <= f.reports_rx2 {
        f.reports_rx1
    } else {
        f.reports_rx2
    }
}

/// A ratio to print as a percentage with so many decimals; 0 if the
/// denominator is 0.
#[derive(Clone, Copy, Debug, PartialEq, Eq, Structural)]
pub struct Ratio {
    pub num: u64,
    pub den: u64,
    pub decimals: u8,
}

/// The ratios that the checks print, in order.
pub open spec fn ratios_of(f: Figures) -> Seq<Ratio> {
    seq![
        Ratio { num: f.rx1_rx, den: f.frames_sent, decimals: 2 },
        Ratio { num: f.rx2_rx, den: f.frames_sent, decimals: 2 },
        Ratio { num: f.rx1_lost, den: f.rx1_total, decimals: 2 },
        Ratio { num: f.rx2_lost, den: f.rx2_total, decimals: 2 },
        Ratio {
            num: (f.reports_rx1 + f.reports_rx2) as u64,
            den: expected_reports(f),
            decimals: 1,
        },
        Ratio { num: f.pairs_total, den: smaller_link(f), decimals: 1 },
    ]
}

/// The ratios that the checks print, in order.
pub fn ratios(f: &Figures) -> (r: Vec<Ratio>)
    requires
        f.reports_rx1 + f.reports_rx2 <= u64::MAX,
    ensures
        r@ == ratios_of(*f),
        r@.len() == 6,
{
    let mut r: Vec<Ratio> = Vec::new();
    r.push(Ratio { num: f.rx1_rx, den: f.frames_sent, decimals: 2 });
    r.push(Ratio { num: f.rx2_rx, den: f.frames_sent, decimals: 2 });
    r.push(Ratio { num: f.rx1_lost, den: f.rx1_total, decimals: 2 });
    r.push(Ratio { num: f.rx2_lost, den: f.rx2_total, decimals: 2 });
    r.push(
        Ratio {
            num: f.reports_rx1 + f.reports_rx2,
            den: 2 * (f.frames_sent / (REPORT_EVERY as u64)),
            decimals: 1,
        },
    );
    let smaller: u64 = if f.reports_rx1 <= f.reports_rx2 {
        f.reports_rx1
    } else {
        f.reports_rx2
    };
    r.push(Ratio { num: f.pairs_total, den: smaller, decimals: 1 });
    assert(r@ =~= ratios_of(*f));
    r
}

/// The checks on delivery and integrity.
pub open spec fn link_checks_of(f: Figures, pct: Seq<Seq<char>>) -> Seq<CheckView> {
    seq![
        CheckView {
            name: "RATE-1: tx.frames_sent >= 1400"@,
            pass: f.frames_sent >= 1400,
            detail: "frames_sent="@ + nat_text(f.frames_sent as nat) + " (required >= 1400)"@,
        },
        CheckView {
            name: "RATE-1: rx1 received >= 99% of sent"@,
            pass: at_least_pct(f.rx1_rx, f.frames_sent, 99),
            detail: "rx1="@ + nat_text(f.rx1_rx as nat) + "/"@ + nat_text(f.frames_sent as nat) + " = "@ + pct[0] + "%"@,
        },
        CheckView {
            name: "RATE-1: rx2 received >= 99% of sent"@,
            pass: at_least_pct(f.rx2_rx, f.frames_sent, 99),
            detail: "rx2="@ + nat_text(f.rx2_rx as nat) + "/"@ + nat_text(f.frames_sent as nat) + " = "@ + pct[1] + "%"@,
        },
        CheckView {
            name: "RATE-1: zero CRC failures (rx1)"@,
            pass: f.rx1_crc == 0,
            detail: "crc_fail="@ + nat_text(f.rx1_crc as nat),
        },
        CheckView {
            name: "RATE-1: zero CRC failures (rx2)"@,
            pass: f.rx2_crc == 0,
            detail: "crc_fail="@ + nat_text(f.rx2_crc as nat),
        },
    ]
}

fn link_checks(
    f: &Figures,
    pct: &[String],
    out: &mut Vec<(String, bool, String)>,
)
    requires
        pct@.len() == 6,
    ensures
        check_views(final(out)@) == check_views(old(out)@) + link_checks_of(*f, crate::decoder::real_texts(pct@)),
{
    let mut d0: String = "frames_sent=".to_owned();
    push_dec(&mut d0, f.frames_sent);
    d0.append(" (required >= 1400)");
    record(out, "RATE-1: tx.frames_sent >= 1400", f.frames_sent >= 1400, d0);
    let mut d1: String = "rx1=".to_owned();
    push_dec(&mut d1, f.rx1_rx);
    d1.append("/");
    push_dec(&mut d1, f.frames_sent);
    d1.append(" = ");
    d1.append(pct[0].as_str());
    d1.append("%");
    record(out, "RATE-1: rx1 received >= 99% of sent", reaches(f.rx1_rx, f.frames_sent, 99), d1);
    let mut d2: String = "rx2=".to_owned();
    push_dec(&mut d2, f.rx2_rx);
    d2.append("/");
    push_dec(&mut d2, f.frames_sent);
    d2.append(" = ");
    d2.append(pct[1].as_str());
    d2.append("%");
    record(out, "RATE-1: rx2 received >= 99% of sent", reaches(f.rx2_rx, f.frames_sent, 99), d2);
    let mut d3: String = "crc_fail=".to_owned();
    push_dec(&mut d3, f.rx1_crc);
    record(out, "RATE-1: zero CRC failures (rx1)", f.rx1_crc == 0, d3);
    let mut d4: String = "crc_fail=".to_owned();
    push_dec(&mut d4, f.rx2_crc);
    record(out, "RATE-1: zero CRC failures (rx2)", f.rx2_crc == 0, d4);
    assert(check_views(out@) =~= check_views(old(out)@) + link_checks_of(*f, crate::decoder::real_texts(pct@)));
}

/// The checks on loss and order.
pub open spec fn order_checks_of(f: Figures, pct: Seq<Seq<char>>) -> Seq<CheckView> {
    seq![
        CheckView {
            name: "RATE-1: seq loss within 1% floor (rx1)"@,
            pass: at_most_one_pct(f.rx1_lost, f.rx1_total),
            detail: "lost="@ + nat_text(f.rx1_lost as nat) + "/total="@ + nat_text(f.rx1_total as nat) + " = "@ + pct[2] + "%"@,
        },
        CheckView {
            name: "RATE-1: seq loss within 1% floor (rx2)"@,
            pass: at_most_one_pct(f.rx2_lost, f.rx2_total),
            detail: "lost="@ + nat_text(f.rx2_lost as nat) + "/total="@ + nat_text(f.rx2_total as nat) + " = "@ + pct[3] + "%"@,
        },
        CheckView {
            name: "RATE-1: no out-of-order / resync (rx1)"@,
            pass: f.rx1_resyncs == 0,
            detail: "resyncs="@ + nat_text(f.rx1_resyncs as nat),
        },
        CheckView {
            name: "RATE-1: no out-of-order / resync (rx2)"@,
            pass: f.rx2_resyncs == 0,
            detail: "resyncs="@ + nat_text(f.rx2_resyncs as nat),
        },
        CheckView {
            name: "RATE-1: zero seq gaps (rx1+rx2)"@,
            pass: f.rx1_gaps == 0 && f.rx2_gaps == 0,
            detail: "gaps: rx1="@ + nat_text(f.rx1_gaps as nat) + ", rx2="@ + nat_text(f.rx2_gaps as nat),
        },
    ]
}

fn order_checks(
    f: &Figures,
    pct: &[String],
    out: &mut Vec<(String, bool, String)>,
)
    requires
        pct@.len() == 6,
    ensures
        check_views(final(out)@) == check_views(old(out)@) + order_checks_of(*f, crate::decoder::real_texts(pct@)),
{
    let mut d5: String = "lost=".to_owned();
    push_dec(&mut d5, f.rx1_lost);
    d5.append("/total=");
    push_dec(&mut d5, f.rx1_total);
    d5.append(" = ");
    d5.append(pct[2].as_str());
    d5.append("%");
    record(out, "RATE-1: seq loss within 1% floor (rx1)", within_one(f.rx1_lost, f.rx1_total), d5);
    let mut d6: String = "lost=".to_owned();
    push_dec(&mut d6, f.rx2_lost);
    d6.append("/total=");
    push_dec(&mut d6, f.rx2_total);
    d6.append(" = ");
    d6.append(pct[3].as_str());
    d6.append("%");
    record(out, "RATE-1: seq loss within 1% floor (rx2)", within_one(f.rx2_lost, f.rx2_total), d6);
    let mut d7: String = "resyncs=".to_owned();
    push_dec(&mut d7, f.rx1_resyncs);
    record(out, "RATE-1: no out-of-order / resync (rx1)", f.rx1_resyncs == 0, d7);
    let mut d8: String = "resyncs=".to_owned();
    push_dec(&mut d8, f.rx2_resyncs);
    record(out, "RATE-1: no out-of-order / resync (rx2)", f.rx2_resyncs == 0, d8);
    let mut d9: String = "gaps: rx1=".to_owned();
    push_dec(&mut d9, f.rx1_gaps);
    d9.append(", rx2=");
    push_dec(&mut d9, f.rx2_gaps);
    record(out, "RATE-1: zero seq gaps (rx1+rx2)", f.rx1_gaps == 0 && f.rx2_gaps == 0, d9);
    assert(check_views(out@) =~= check_views(old(out)@) + order_checks_of(*f, crate::decoder::real_texts(pct@)));
}

/// The checks on reports and pairs.
pub open spec fn report_checks_of(f: Figures, pct: Seq<Seq<char>>) -> Seq<CheckView> {
    seq![
        CheckView {
            name: "RATE-2: reports received >= 90% of expected"@,
            pass: at_least_pct((f.reports_rx1 + f.reports_rx2) as u64, expected_reports(f), 90),
            detail: "reports_rx1+rx2="@ + nat_text(((f.reports_rx1 + f.reports_rx2) as u64) as nat) + "/"@ + nat_text(expected_reports(f) as nat) + " = "@ + pct[4] + "%"@,
        },
        CheckView {
            name: "RATE-2: pairs >= 60% of smaller link's reports"@,
            pass: at_least_pct(f.pairs_total, smaller_link(f), 60),
            detail: "pairs_total="@ + nat_text(f.pairs_total as nat) + " / min("@ + nat_text(f.reports_rx1 as nat) + ","@ + nat_text(f.reports_rx2 as nat) + ")="@ + nat_text(smaller_link(f) as nat) + " = "@ + pct[5] + "%"@,
        },
    ]
}

fn report_checks(
    f: &Figures,
    pct: &[String],
    out: &mut Vec<(String, bool, String)>,
)
    requires
        f.reports_rx1 + f.reports_rx2 <= u64::MAX,
        pct@.len() == 6,
    ensures
        check_views(final(out)@) == check_views(old(out)@) + report_checks_of(*f, crate::decoder::real_texts(pct@)),
{
    let reports: u64 = f.reports_rx1 + f.reports_rx2;
    let expected: u64 = 2 * (f.frames_sent / (REPORT_EVERY as u64));
    let smaller: u64 = if f.reports_rx1 <= f.reports_rx2 {
        f.reports_rx1
    } else {
        f.reports_rx2
    };
    let mut d10: String = "reports_rx1+rx2=".to_owned();
    push_dec(&mut d10, reports);
    d10.append("/");
    push_dec(&mut d10, expected);
    d10.append(" = ");
    d10.append(pct[4].as_str());
    d10.append("%");
    record(out, "RATE-2: reports received >= 90% of expected", reaches(reports, expected, 90), d10);
    let mut d11: String = "pairs_total=".to_owned();
    push_dec(&mut d11, f.pairs_total);
    d11.append(" / min(");
    push_dec(&mut d11, f.reports_rx1);
    d11.append(",");
    push_dec(&mut d11, f.reports_rx2);
    d11.append(")=");
    push_dec(&mut d11, smaller);
    d11.append(" = ");
    d11.append(pct[5].as_str());
    d11.append("%");
    record(out, "RATE-2: pairs >= 60% of smaller link's reports", reaches(f.pairs_total, smaller, 60), d11);
    assert(check_views(out@) =~= check_views(old(out)@) + report_checks_of(*f, crate::decoder::real_texts(pct@)));
}

/// The checks on snapshots and fusion.
pub open spec fn output_checks_of(f: Figures, final_state: Seq<char>) -> Seq<CheckView> {
    seq![
        CheckView {
            name: "RATE-3: snapshots received >= 8"@,
            pass: f.snapshots_rx >= 8,
            detail: "snapshots_rx="@ + nat_text(f.snapshots_rx as nat),
        },
        CheckView {
            name: "FUSION: >= 1 fused occupancy output from a real pair"@,
            pass: f.fused_outputs >= 1,
            detail: "fused_outputs="@ + nat_text(f.fused_outputs as nat) + ", final_state="@ + final_state,
        },
    ]
}

fn output_checks(
    f: &Figures,
    final_state: &str,
    out: &mut Vec<(String, bool, String)>,
)
    ensures
        check_views(final(out)@) == check_views(old(out)@) + output_checks_of(*f, final_state@),
{
    let mut d12: String = "snapshots_rx=".to_owned();
    push_dec(&mut d12, f.snapshots_rx);
    record(out, "RATE-3: snapshots received >= 8", f.snapshots_rx >= 8, d12);
    let mut d13: String = "fused_outputs=".to_owned();
    push_dec(&mut d13, f.fused_outputs);
    d13.append(", final_state=");
    d13.append(final_state);
    record(out, "FUSION: >= 1 fused occupancy output from a real pair", f.fused_outputs >= 1, d13);
    assert(check_views(out@) =~= check_views(old(out)@) + output_checks_of(*f, final_state@));
}

/// The checks on a run, given the texts of its ratios and the last fused
/// occupancy state.
pub open spec fn checks_of(f: Figures, pct: Seq<Seq<char>>, final_state: Seq<char>) -> Seq<
    CheckView,
> {
    link_checks_of(f, pct) + order_checks_of(f, pct) + report_checks_of(f, pct) + output_checks_of(
        f,
        final_state,
    )
}

/// Runs the checks and appends their outcomes.
pub fn run_assertions(
    f: &Figures,
    pct: &[String],
    final_state: &str,
    out: &mut Vec<(String, bool, String)>,
)
    requires
        f.reports_rx1 + f.reports_rx2 <= u64::MAX,
        pct@.len() == 6,
    ensures
        check_views(final(out)@) == check_views(old(out)@) + checks_of(
            *f,
            crate::decoder::real_texts(pct@),
            final_state@,
        ),
{
    link_checks(f, pct, out);
    order_checks(f, pct, out);
    report_checks(f, pct, out);
    output_checks(f, final_state, out);
    assert(check_views(out@) =~= check_views(old(out)@) + checks_of(
        *f,
        crate::decoder::real_texts(pct@),
        final_state@,
    ));
}

/// What each check demands of a run: enough frames, of which either receiver
/// heard 99 of 100, none corrupt, at most one in a hundred lost, none out of
/// order and none skipped; nine of ten of the reports that are due, one per
/// twenty frames and receiver; pairs for six of ten reports of the quieter
/// link; eight snapshots and an estimate.
pub proof fn checks_demand_a_good_run(f: Figures, pct: Seq<Seq<char>>, final_state: Seq<char>)
    requires
        f.reports_rx1 + f.reports_rx2 <= u64::MAX,
    ensures
        checks_of(f, pct, final_state).len() == 14,
        ({
            let c = checks_of(f, pct, final_state);
            &&& c[0].pass == (f.frames_sent >= 1400)
            &&& c[1].pass == (f.frames_sent > 0 && 100 * f.rx1_rx >= 99 * f.frames_sent)
            &&& c[2].pass == (f.frames_sent > 0 && 100 * f.rx2_rx >= 99 * f.frames_sent)
            &&& c[3].pass == (f.rx1_crc == 0)
            &&& c[4].pass == (f.rx2_crc == 0)
            &&& c[5].pass == (100 * f.rx1_lost <= f.rx1_total || f.rx1_total == 0)
            &&& c[6].pass == (100 * f.rx2_lost <= f.rx2_total || f.rx2_total == 0)
            &&& c[7].pass == (f.rx1_resyncs == 0)
            &&& c[8].pass == (f.rx2_resyncs == 0)
            &&& c[9].pass == (f.rx1_gaps == 0 && f.rx2_gaps == 0)
            &&& c[10].pass == (f.frames_sent >= 20 && 100 * (f.reports_rx1 + f.reports_rx2) >= 90 * (2 * (f.frames_sent
                / 20)))
            &&& c[11].pass == (f.reports_rx1 > 0 && f.reports_rx2 > 0 && (100 * f.pairs_total >= 60 * f.reports_rx1 || 100
                * f.pairs_total >= 60 * f.reports_rx2))
            &&& c[12].pass == (f.snapshots_rx >= 8)
            &&& c[13].pass == (f.fused_outputs >= 1)
        }),
{
    let c = checks_of(f, pct, final_state);
    assert(c[0] == link_checks_of(f, pct)[0] && c[1] == link_checks_of(f, pct)[1] && c[2]
        == link_checks_of(f, pct)[2] && c[3] == link_checks_of(f, pct)[3] && c[4]
        == link_checks_of(f, pct)[4]);
    assert(c[5] == order_checks_of(f, pct)[0] && c[6] == order_checks_of(f, pct)[1] && c[7]
        == order_checks_of(f, pct)[2] && c[8] == order_checks_of(f, pct)[3] && c[9]
        == order_checks_of(f, pct)[4]);
    assert(c[10] == report_checks_of(f, pct)[0] && c[11] == report_checks_of(f, pct)[1]);
    assert(c[12] == output_checks_of(f, final_state)[0] && c[13] == output_checks_of(
        f,
        final_state,
    )[1]);
}

/// Each figure is the number of that name in the summary of its role, and the
/// receivers' figures change places with their summaries.
pub proof fn figures_come_from_their_role(
    tx: Map<Seq<char>, Seq<char>>,
    rx1: Map<Seq<char>, Seq<char>>,
    rx2: Map<Seq<char>, Seq<char>>,
)
    ensures
        ({
            let (f, g) = (figures_of(tx, rx1, rx2), figures_of(tx, rx2, rx1));
            &&& f.frames_sent == field_number(tx, "frames_sent"@) as u64
            &&& f.reports_rx1 == field_number(tx, "reports_rx1"@) as u64
            &&& f.reports_rx2 == field_number(tx, "reports_rx2"@) as u64
            &&& f.pairs_total == field_number(tx, "pairs_total"@) as u64
            &&& f.snapshots_rx == field_number(tx, "snapshots_rx"@) as u64
            &&& f.fused_outputs == field_number(tx, "fused_outputs"@) as u64
            &&& f.rx1_rx == field_number(rx1, "frames_rx"@) as u64 && f.rx1_rx == g.rx2_rx
            &&& f.rx1_crc == field_number(rx1, "crc_fail"@) as u64 && f.rx1_crc == g.rx2_crc
            &&& f.rx1_lost == field_number(rx1, "lost"@) as u64 && f.rx1_lost == g.rx2_lost
            &&& f.rx1_total == field_number(rx1, "total"@) as u64 && f.rx1_total == g.rx2_total
            &&& f.rx1_resyncs == field_number(rx1, "resyncs"@) as u64 && f.rx1_resyncs
                == g.rx2_resyncs
            &&& f.rx1_gaps == field_number(rx1, "gaps"@) as u64 && f.rx1_gaps == g.rx2_gaps
            &&& f.rx2_rx == g.rx1_rx && f.rx2_crc == g.rx1_crc && f.rx2_lost == g.rx1_lost
            &&& f.rx2_total == g.rx1_total && f.rx2_resyncs == g.rx1_resyncs && f.rx2_gaps
                == g.rx1_gaps
        }),
{
}

/// The shares that are shown are those that the checks judge.
pub proof fn shares_are_those_judged(f: Figures)
    requires
        f.reports_rx1 + f.reports_rx2 <= u64::MAX,
    ensures
        ({
            let r = ratios_of(f);
            &&& r.len() == 6
            &&& r[0].num == f.rx1_rx && r[1].num == f.rx2_rx
            &&& r[0].den == f.frames_sent && r[1].den == f.frames_sent
            &&& r[2].num == f.rx1_lost && r[2].den == f.rx1_total
            &&& r[3].num == f.rx2_lost && r[3].den == f.rx2_total
            &&& r[4].num == f.reports_rx1 + f.reports_rx2
            &&& 20 * r[4].den <= 2 * f.frames_sent < 20 * r[4].den + 40
            &&& r[5].num == f.pairs_total
            &&& r[5].den <= f.reports_rx1 && r[5].den <= f.reports_rx2
            &&& r[5].den == f.reports_rx1 || r[5].den == f.reports_rx2
        }),
{
}

/// Appends the outcome of one check.
fn record(out: &mut Vec<(String, bool, String)>, name: &str, pass: bool, detail: String)
    ensures
        check_views(final(out)@) == check_views(old(out)@).push(
            (CheckView { name: name@, pass, detail: detail@ }),
        ),
{
    out.push((name.to_owned(), pass, detail));
    assert(check_views(out@) =~= check_views(old(out)@).push(
        CheckView { name: name@, pass, detail: detail@ },
    ));
}

/// Whether every check passed.
pub fn all_passed(checks: &Vec<(String, bool, String)>) -> (ok: bool)
    ensures
        ok == forall|i: int| 0 <= i < checks@.len() ==> (#[trigger] checks@[i]).1,
{
    let mut i: usize = 0;
    while i < checks.len()
        invariant
            i <= checks@.len(),
            forall|k: int| 0 <= k < i ==> (#[trigger] checks@[k]).1,
        decreases checks@.len() - i,
    {
        if !checks[i].1 {
            assert(!checks@[i as int].1);
            return false;
        }
        i += 1;
    }
    true
}

/// Whether a run succeeded: every check passed and no role failed. A role that
/// still runs has not failed.
pub fn run_passed(checks: &Vec<(String, bool, String)>, failed: &Vec<bool>) -> (ok: bool)
    ensures
        ok == ((forall|i: int| 0 <= i < checks@.len() ==> (#[trigger] checks@[i]).1) && (forall|
            i: int,
        |
            0 <= i < failed@.len() ==> !#[trigger] failed@[i])),
{
    let mut i: usize = 0;
    while i < failed.len()
        invariant
            i <= failed@.len(),
            forall|k: int| 0 <= k < i ==> !#[trigger] failed@[k],
        decreases failed@.len() - i,
    {
        if failed[i] {
            assert(failed@[i as int]);
            return false;
        }
        i += 1;
    }
    all_passed(checks)
}

/// The place of the last summary line among a role's output lines.
pub fn latest_summary(lines: &Vec<String>) -> (r: Option<usize>)
    ensures
        match r {
            Some(i) => {
                &&& i < lines@.len()
                &&& "SUMMARY|"@.is_prefix_of(lines@[i as int]@)
                &&& forall|k: int|
                    i < k < lines@.len() ==> !"SUMMARY|"@.is_prefix_of((#[trigger] lines@[k])@)
            },
            None => forall|k: int|
                0 <= k < lines@.len() ==> !"SUMMARY|"@.is_prefix_of((#[trigger] lines@[k])@),
        },
{
    let mut i: usize = lines.len();
    while i > 0
        invariant
            i <= lines@.len(),
            forall|k: int|
                i <= k < lines@.len() ==> !"SUMMARY|"@.is_prefix_of((#[trigger] lines@[k])@),
        decreases i,
    {
        if crate::text::has_prefix(lines[i - 1].as_str(), "SUMMARY|") {
            return Some(i - 1);
        }
        i -= 1;
    }
    None
}

/// What to do while the roles start.
#[derive(Clone, Copy, Debug, PartialEq, Eq, Structural)]
pub enum Handshake {
    /// All are ready: start the run.
    Go,
    /// A role ended, or the time is over.
    Fail,
    /// Look again in a moment.
    Wait,
}

/// A role said that it is ready.
pub open spec fn said_ready(lines: Seq<String>) -> bool {
    exists|i: int| 0 <= i < lines.len() && "READY:"@.is_prefix_of((#[trigger] lines[i])@)
}

/// Whether a role said that it is ready.
pub fn is_ready(lines: &Vec<String>) -> (ready: bool)
    ensures
        ready == said_ready(lines@),
{
    let mut i: usize = 0;
    while i < lines.len()
        invariant
            i <= lines@.len(),
            forall|j: int| 0 <= j < i ==> !"READY:"@.is_prefix_of((#[trigger] lines@[j])@),
        decreases lines@.len() - i,
    {
        if has_prefix(lines[i].as_str(), "READY:") {
            return true;
        }
        i += 1;
    }
    false
}

/// Decides how the start goes on, given how many of the three roles are ready,
/// whether one has ended, and whether the time is over.
pub fn handshake(ready: usize, exited: bool, expired: bool) -> (h: Handshake)
    ensures
        h == (if ready == 3 {
            Handshake::Go
        } else if exited || expired {
            Handshake::Fail
        } else {
            Handshake::Wait
        }),
{
    if ready == 3 {
        Handshake::Go
    } else if exited || expired {
        Handshake::Fail
    } else {
        Handshake::Wait
    }
}

} // verus!

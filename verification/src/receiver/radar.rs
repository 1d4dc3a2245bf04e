//! The measurement cycle of a receiver: which frames count, when a report and
//! a snapshot are due, and what arriving frames change.

use vstd::prelude::*;

use crate::arith::low_byte;
use crate::arith::low_i8;
use crate::protocol::payloads::{cal_cmd_at, parse_cal_cmd};
use crate::protocol::{frame_type, CalResp, CsiSnapshot, FeatureReport};
use crate::receiver::collect::{
    collected, commanded, ends_at, fed, finalize_cal, finalized, handle_cal_cmd, identity_ack,
    window_end, CalCollect, CollectedReals, Finalized,
};
use crate::receiver::metrics::{csi_quality, quality_of, snr_db, FrameStats};
use crate::receiver::window::{
    blank_window, widened, window_report, ReportReals, ReportWindow,
};
use crate::wire::F32Bits;

verus! {

/// Samples of the first component that a motion spectrum covers.
pub const STFT_LEN: usize = 128;

/// The principal components are fitted anew every so many frames.
pub const PCA_REFIT_EVERY: u32 = 4;

/// A snapshot is due every so many reports.
pub const SNAPSHOT_FACTOR: u32 = 5;

/// Frames between reports: a setting of 0 counts as 1.
pub open spec fn report_period(report_every: u16) -> u32 {
    if report_every == 0 {
        1
    } else {
        report_every as u32
    }
}

/// State of the measurement cycle.
#[derive(Debug)]
pub struct Receiver {
    /// Frames per report.
    pub report_every: u32,
    /// Frames per snapshot.
    pub snapshot_every: u32,
    /// The access point whose frames are measured.
    pub ap_bssid: [u8; 6],
    /// Frames of the access point heard so far.
    pub frame_idx: u32,
    /// Frames heard since the last snapshot was due.
    pub since_snapshot: u32,
    /// Sequence number of the last measurement packet.
    pub last_tx_seq: u32,
    /// Sequence number at the start of the window.
    pub win_start_seq: u32,
    /// Drops of the capture ring when the last report was made.
    pub ring_overflow: u32,
    pub window: ReportWindow,
    pub cal: CalCollect,
}

/// What a frame of the access point is due to.
#[derive(Clone, Copy, Debug, PartialEq, Eq, Structural)]
pub struct FrameStart {
    /// The principal components are to be fitted with this frame.
    pub refit: bool,
}

/// A report that is due, and whether a snapshot is due with it.
#[derive(Clone, Copy, Debug)]
pub struct DueReport {
    pub report: FeatureReport,
    pub snapshot: bool,
}

/// One more than `n`, wrapping.
pub open spec fn next_index(n: u32) -> u32 {
    if n == u32::MAX {
        0
    } else {
        (n + 1) as u32
    }
}

/// One more than `n`, at most the largest count.
pub open spec fn one_more(n: u32) -> u32 {
    if n == u32::MAX {
        n
    } else {
        (n + 1) as u32
    }
}

/// New drops of the capture ring.
pub open spec fn new_drops(before: u32, now: u32) -> u32 {
    if now >= before {
        (now - before) as u32
    } else {
        0
    }
}

impl Receiver {
    /// Cadences are set, the window is not full and all counts are consistent.
    pub open spec fn wf(self) -> bool {
        &&& 1 <= self.report_every <= 65535
        &&& self.snapshot_every == self.report_every * SNAPSHOT_FACTOR
        &&& self.window.wf()
        &&& self.window.n <= self.report_every
        &&& self.cal.wf()
    }

    /// A receiver that has heard nothing.
    pub fn new(report_every: u16, ap_bssid: [u8; 6], ring_overflow: u32) -> (r: Self)
        ensures
            r.wf(),
            r.report_every == report_period(report_every),
            r.ap_bssid == ap_bssid,
            r.frame_idx == 0 && r.since_snapshot == 0 && r.last_tx_seq == 0 && r.win_start_seq
                == 0,
            r.ring_overflow == ring_overflow,
            r.window == blank_window(),
            r.cal == CalCollect::Idle,
    {
        let every: u32 = if report_every == 0 {
            1
        } else {
            report_every as u32
        };
        Receiver {
            report_every: every,
            snapshot_every: every * SNAPSHOT_FACTOR,
            ap_bssid,
            frame_idx: 0,
            since_snapshot: 0,
            last_tx_seq: 0,
            win_start_seq: 0,
            ring_overflow,
            window: ReportWindow::new(),
            cal: CalCollect::Idle,
        }
    }

    /// Whether a captured frame is of the measured access point.
    pub fn wants(&self, mac: &[u8; 6]) -> (w: bool)
        ensures
            w == (mac@ == self.ap_bssid@),
    {
        let mut i: usize = 0;
        while i < 6
            invariant
                i <= 6,
                forall|k: int| 0 <= k < i ==> mac@[k] == self.ap_bssid@[k],
            decreases 6 - i,
        {
            if mac[i] != self.ap_bssid[i] {
                assert(mac@[i as int] != self.ap_bssid@[i as int]);
                return false;
            }
            i += 1;
        }
        assert(mac@ =~= self.ap_bssid@);
        true
    }

    /// Counts a frame of the access point, decodable or not.
    pub fn begin_frame(&mut self) -> (s: FrameStart)
        requires
            old(self).wf(),
        ensures
            final(self).wf(),
            *final(self) == (Receiver {
                frame_idx: next_index(old(self).frame_idx),
                since_snapshot: one_more(old(self).since_snapshot),
                ..*old(self)
            }),
            s.refit == (final(self).frame_idx % PCA_REFIT_EVERY == 0),
            s.refit == (final(self).frame_idx % 4 == 0),
            final(self).frame_idx == (old(self).frame_idx + 1) % 0x1_0000_0000,
    {
        self.frame_idx = if self.frame_idx == u32::MAX {
            0
        } else {
            self.frame_idx + 1
        };
        if self.since_snapshot < u32::MAX {
            self.since_snapshot = self.since_snapshot + 1;
        }
        FrameStart { refit: self.frame_idx % PCA_REFIT_EVERY == 0 }
    }

    /// Takes a decoded frame: it feeds the running collection and then the
    /// window. Says whether the window is full, so that a report is due. A
    /// frame that could not be decoded changes nothing.
    pub fn take_frame(&mut self, f: &FrameStats) -> (due: bool)
        requires
            old(self).wf(),
            old(self).window.n < old(self).report_every,
            collected(old(self).cal) < u32::MAX,
        ensures
            final(self).wf(),
            !f.valid ==> *final(self) == *old(self) && !due,
            f.valid ==> {
                &&& fed(old(self).cal, *f, final(self).cal)
                &&& *final(self) == (Receiver {
                    window: widened(old(self).window, *f),
                    cal: final(self).cal,
                    ..*old(self)
                })
                &&& due == (final(self).window.n >= old(self).report_every)
            },
    {
        if !f.valid {
            return false;
        }
        self.cal.feed(f);
        self.window.push(f);
        self.window.n >= self.report_every
    }

    /// Makes the report that is due and starts the next window. `overflow` is
    /// the drop count of the capture ring.
    pub fn make_report(&mut self, reals: &ReportReals, overflow: u32) -> (d: DueReport)
        requires
            old(self).wf(),
        ensures
            final(self).wf(),
            d.report == window_report(
                old(self).window,
                *reals,
                old(self).last_tx_seq,
                old(self).win_start_seq,
                new_drops(old(self).ring_overflow, overflow),
            ),
            d.report.seq == old(self).last_tx_seq,
            d.report.n_frames == old(self).window.n,
            (d.report.flags != 0) == (overflow > old(self).ring_overflow),
            d.report.motion_energy == reals.motion_energy,
            d.report.amp_std == reals.amp_std,
            d.report.amp_mean == reals.amp_mean,
            d.report.spectral_entropy == reals.spectral_entropy,
            d.report.dominant_freq_hz == reals.dominant_freq_hz,
            d.report.phase_dispersion == reals.phase_dispersion,
            d.report.baseline_dev == reals.baseline_dev,
            d.report.pca_scores == reals.pca_scores,
            d.snapshot == (old(self).since_snapshot >= old(self).snapshot_every),
            *final(self) == (Receiver {
                window: blank_window(),
                ring_overflow: overflow,
                win_start_seq: old(self).last_tx_seq,
                since_snapshot: if d.snapshot {
                    (old(self).since_snapshot - old(self).snapshot_every) as u32
                } else {
                    old(self).since_snapshot
                },
                ..*old(self)
            }),
    {
        let drops: u32 = if overflow >= self.ring_overflow {
            overflow - self.ring_overflow
        } else {
            0
        };
        let report = self.window.report(reals, self.last_tx_seq, self.win_start_seq, drops);
        self.ring_overflow = overflow;
        self.win_start_seq = self.last_tx_seq;
        self.window.reset();
        let snapshot = self.since_snapshot >= self.snapshot_every;
        if snapshot {
            self.since_snapshot = self.since_snapshot - self.snapshot_every;
        }
        DueReport { report, snapshot }
    }

    /// Takes a frame from the measurement port: a measurement packet sets the
    /// sequence number.
    pub fn on_measurement(&mut self, kind: u8, seq: u32)
        requires
            old(self).wf(),
        ensures
            final(self).wf(),
            *final(self) == (Receiver {
                last_tx_seq: if kind == frame_type::DATA_FRAME {
                    seq
                } else {
                    old(self).last_tx_seq
                },
                ..*old(self)
            }),
    {
        if kind == frame_type::DATA_FRAME {
            self.last_tx_seq = seq;
        }
    }

    /// Takes a frame from the wired link: a whole calibration command is
    /// carried out, anything else is dropped. Gives the immediate answer.
    pub fn on_wired(&mut self, kind: u8, payload: &[u8], now_us: u64) -> (r: Option<CalResp>)
        requires
            old(self).wf(),
            kind == frame_type::CAL_CMD && payload@.len() >= 8 && payload@[1]
                != crate::protocol::cal_action::ABORT ==> window_end(cal_cmd_at(payload@), now_us)
                <= u64::MAX,
        ensures
            final(self).wf(),
            *final(self) == (Receiver { cal: final(self).cal, ..*old(self) }),
            kind == frame_type::CAL_CMD && payload@.len() >= 8 ==> {
                &&& commanded(old(self).cal, cal_cmd_at(payload@), now_us, final(self).cal)
                &&& r == (if payload@[1] != crate::protocol::cal_action::ABORT && payload@[0]
                    == crate::protocol::cal_stage::IDENTITY {
                    Some(identity_ack())
                } else {
                    None::<CalResp>
                })
            },
            !(kind == frame_type::CAL_CMD && payload@.len() >= 8) ==> r is None && *final(self)
                == *old(self),
    {
        if kind != frame_type::CAL_CMD {
            return None;
        }
        match parse_cal_cmd(payload) {
            None => None,
            Some(cmd) => handle_cal_cmd(&mut self.cal, &cmd, now_us),
        }
    }

    /// Whether the running collection is over.
    pub fn collection_is_over(&self, now_us: u64) -> (over: bool)
        ensures
            over == (match ends_at(self.cal) {
                Some(end_us) => now_us >= end_us,
                None => false,
            }),
    {
        match crate::receiver::collect::active_deadline(&self.cal) {
            Some(end_us) => now_us >= end_us,
            None => false,
        }
    }

    /// Finishes the running collection.
    pub fn finish_collection(&mut self, reals: &CollectedReals) -> (r: Option<Finalized>)
        requires
            old(self).wf(),
        ensures
            final(self).wf(),
            *final(self) == (Receiver { cal: CalCollect::Idle, ..*old(self) }),
            finalized(old(self).cal, *reals, r),
    {
        finalize_cal(&mut self.cal, reals)
    }
}

/// The cycle of one decodable frame: it is counted, it feeds the window, and a
/// report is made when the window is full.
pub open spec fn cycled(n: nat, since: nat, report_every: nat) -> (nat, nat, bool, bool) {
    let full = n + 1 >= report_every;
    let snapshot = full && since + 1 >= report_every * SNAPSHOT_FACTOR as nat;
    (
        if full {
            0
        } else {
            n + 1
        },
        if snapshot {
            (since + 1 - report_every * SNAPSHOT_FACTOR as nat) as nat
        } else {
            since + 1
        },
        full,
        snapshot,
    )
}

/// A decodable frame takes a receiver through one cycle.
pub proof fn frame_is_one_cycle(r: Receiver, f: FrameStats)
    requires
        r.wf(),
        r.window.n < r.report_every,
        r.since_snapshot < u32::MAX,
    ensures
        ({
            let c = cycled(r.window.n as nat, r.since_snapshot as nat, r.report_every as nat);
            let n = widened(r.window, f).n;
            let since = one_more(r.since_snapshot);
            &&& c.2 == (n >= r.report_every)
            &&& c.3 == (c.2 && since >= r.snapshot_every)
            &&& c.0 == if c.2 {
                blank_window().n
            } else {
                n
            }
            &&& c.1 == if c.3 {
                since - r.snapshot_every
            } else {
                since as int
            }
        }),
{
}

/// `count` cycles from the start.
pub open spec fn cycles(count: nat, report_every: nat) -> (nat, nat, bool, bool)
    decreases count,
{
    if count == 0 {
        (0, 0, false, false)
    } else {
        let before = cycles((count - 1) as nat, report_every);
        cycled(before.0, before.1, report_every)
    }
}

/// While every frame can be decoded, a report is made with every
/// `report_every`-th frame and a snapshot with every `5 * report_every`-th.
pub proof fn reports_keep_their_cadence(count: nat, report_every: nat)
    requires
        report_every >= 1,
    ensures
        cycles(count, report_every).0 == count % report_every,
        cycles(count, report_every).1 == count % (report_every * 5),
        count > 0 ==> cycles(count, report_every).2 == (count % report_every == 0),
        count > 0 ==> cycles(count, report_every).3 == (count % (report_every * 5) == 0),
    decreases count,
{
    if count > 0 {
        let m = (count - 1) as nat;
        reports_keep_their_cadence(m, report_every);
        next_remainder(m, report_every);
        next_remainder(m, report_every * 5);
        if (m + 1) % (report_every * 5) == 0 {
            multiple_of_a_multiple((m + 1) as int, report_every as int);
        }
    } else {
        assert(0nat % report_every == 0 && 0nat % (report_every * 5) == 0) by (nonlinear_arith)
            requires
                report_every >= 1,
        ;
    }
}

proof fn next_remainder(m: nat, d: nat)
    requires
        d >= 1,
    ensures
        (m + 1) % d == if m % d + 1 == d {
            0
        } else {
            m % d + 1
        },
        m % d < d,
{
    let (q, r) = (m / d, m % d);
    vstd::arithmetic::div_mod::lemma_fundamental_div_mod(m as int, d as int);
    vstd::arithmetic::div_mod::lemma_mod_bound(m as int, d as int);
    if r + 1 == d {
        assert(m + 1 == d * (q + 1)) by (nonlinear_arith)
            requires
                m == d * q + r,
                r + 1 == d,
        ;
        vstd::arithmetic::div_mod::lemma_fundamental_div_mod_converse(
            (m + 1) as int,
            d as int,
            (q + 1) as int,
            0,
        );
    } else {
        assert(m + 1 == q * d + (r + 1)) by (nonlinear_arith)
            requires
                m == d * q + r,
        ;
        assert(0 <= r + 1 < d);
        vstd::arithmetic::div_mod::lemma_fundamental_div_mod_converse(
            (m + 1) as int,
            d as int,
            q as int,
            (r + 1) as int,
        );
    }
}

proof fn multiple_of_a_multiple(x: int, d: int)
    requires
        d >= 1,
        x % (d * 5) == 0,
    ensures
        x % d == 0,
{
    vstd::arithmetic::div_mod::lemma_fundamental_div_mod(x, d * 5);
    let q = x / (d * 5);
    assert(x == d * (5 * q)) by (nonlinear_arith)
        requires
            x == (d * 5) * q,
    ;
    vstd::arithmetic::div_mod::lemma_fundamental_div_mod_converse(x, d, 5 * q, 0);
}

/// The snapshot of a frame with the given per-subcarrier values.
pub open spec fn snapshot_of(
    seq: u32,
    rssi: i16,
    noise_floor: i16,
    noise_bits: F32Bits,
    iq: [i16; 112],
    amp_norm: [u8; 56],
    spec: [u8; 64],
) -> CsiSnapshot {
    CsiSnapshot {
        seq,
        rssi,
        snr: low_byte(rssi - noise_floor),
        csi_quality: quality_of(rssi - noise_floor),
        noise_floor: noise_bits,
        flags: 0,
        n_sub: 56,
        reserved: 0,
        iq,
        amp_norm,
        spec,
    }
}

/// A snapshot carries what was measured under its own name: the strength and
/// its distance from the noise, the quality of that distance, and the values
/// per subcarrier and frequency.
pub proof fn snapshots_keep_their_names(
    seq: u32,
    rssi: i16,
    noise_floor: i16,
    noise_bits: F32Bits,
    iq: [i16; 112],
    amp_norm: [u8; 56],
    spec: [u8; 64],
)
    ensures
        ({
            let s = snapshot_of(seq, rssi, noise_floor, noise_bits, iq, amp_norm, spec);
            &&& s.seq == seq && s.rssi == rssi && s.noise_floor == noise_bits
            &&& -128 <= rssi - noise_floor <= 127 ==> s.snr == rssi - noise_floor
            &&& -40 <= rssi - noise_floor <= 60 ==> s.csi_quality == rssi - noise_floor + 40
            &&& s.n_sub == 56 && s.flags == 0
            &&& s.iq == iq && s.amp_norm == amp_norm && s.spec == spec
        }),
{
}

/// Drops of the capture ring are counted from report to report, and reports
/// come every frame at least.
pub proof fn cadence_and_drops_are_sound(every: u16, before: u32, now: u32)
    ensures
        report_period(every) >= 1,
        every >= 1 ==> report_period(every) == every,
        now >= before ==> before + new_drops(before, now) == now,
        now < before ==> new_drops(before, now) == 0,
{
}

/// Builds a snapshot; `noise_bits` is the noise floor as a real number.
pub fn make_snapshot(
    seq: u32,
    rssi: i16,
    noise_floor: i16,
    noise_bits: F32Bits,
    iq: [i16; 112],
    amp_norm: [u8; 56],
    spec: [u8; 64],
) -> (s: CsiSnapshot)
    ensures
        s == snapshot_of(seq, rssi, noise_floor, noise_bits, iq, amp_norm, spec),
{
    let snr: i32 = snr_db(rssi, noise_floor);
    CsiSnapshot {
        seq,
        rssi,
        snr: low_i8(snr as i64),
        csi_quality: csi_quality(snr),
        noise_floor: noise_bits,
        flags: 0,
        n_sub: 56,
        reserved: 0,
        iq,
        amp_norm,
        spec,
    }
}

} // verus!

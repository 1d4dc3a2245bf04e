//! Pacing of the measurement traffic.

use vstd::prelude::*;

verus! {

/// Send errors are logged at most this often.
pub const ERROR_LOG_PERIOD_US: u64 = 5_000_000;

/// Microseconds between packets; a rate of 0 counts as 1.
pub open spec fn period(rate_hz: u16) -> int {
    if rate_hz == 0 {
        1_000_000
    } else {
        1_000_000int / (rate_hz as int)
    }
}

/// When packets are sent.
#[derive(Clone, Copy, Debug, PartialEq, Eq, Structural)]
pub struct Pacer {
    pub period_us: u64,
    /// When the last packet was due.
    pub next_us: u64,
}

/// The pacer after a packet, at `now`, and how long to sleep: until the next
/// packet is due, or not at all when it is overdue, in which case the schedule
/// starts anew from now.
pub open spec fn paced(p: Pacer, now: u64) -> (Pacer, u64) {
    let due = p.next_us + p.period_us;
    if now < due {
        (Pacer { next_us: due as u64, ..p }, (due - now) as u64)
    } else {
        (Pacer { next_us: now, ..p }, 0)
    }
}

/// A pacer that keeps up sends at exactly its period, and one that fell behind
/// does not catch up by a burst: packets are never due closer together.
pub proof fn packets_are_a_period_apart(p: Pacer, now: u64)
    requires
        p.next_us + p.period_us <= u64::MAX,
    ensures
        paced(p, now).0.next_us >= p.next_us + p.period_us,
        now < p.next_us + p.period_us ==> paced(p, now).0.next_us == p.next_us + p.period_us,
        now + paced(p, now).1 == paced(p, now).0.next_us,
{
}

/// A second holds as many periods as the rate says, cut to whole
/// microseconds.
pub proof fn period_matches_the_rate(rate_hz: u16)
    requires
        rate_hz > 0,
    ensures
        rate_hz * period(rate_hz) <= 1_000_000 < rate_hz * (period(rate_hz) + 1),
        period(0) == period(1),
{
    let r = rate_hz as int;
    vstd::arithmetic::div_mod::lemma_fundamental_div_mod(1_000_000, r);
    vstd::arithmetic::div_mod::lemma_mod_bound(1_000_000, r);
    let d = 1_000_000int / r;
    assert(r * (d + 1) == r * d + r) by (nonlinear_arith);
}

impl Pacer {
    /// A pacer that starts now.
    pub fn new(rate_hz: u16, now: u64) -> (p: Self)
        ensures
            p.period_us == period(rate_hz),
            p.next_us == now,
    {
        let rate: u64 = if rate_hz == 0 {
            1
        } else {
            rate_hz as u64
        };
        Pacer { period_us: 1_000_000 / rate, next_us: now }
    }

    /// Takes that a packet was sent; gives the time to sleep.
    pub fn after_send(&mut self, now: u64) -> (sleep_us: u64)
        requires
            old(self).next_us + old(self).period_us <= u64::MAX,
        ensures
            (*final(self), sleep_us) == paced(*old(self), now),
    {
        let due: u64 = self.next_us + self.period_us;
        if now < due {
            self.next_us = due;
            due - now
        } else {
            self.next_us = now;
            0
        }
    }
}

/// Whether a send error is logged, given when one was logged last.
pub fn error_is_logged(last_warn_us: Option<u64>, now: u64) -> (log: bool)
    ensures
        log == (match last_warn_us {
            None => true,
            Some(t) => now >= t + ERROR_LOG_PERIOD_US,
        }),
        last_warn_us is None ==> log,
        last_warn_us matches Some(t) ==> log == (now - t >= 5_000_000),
{
    match last_warn_us {
        None => true,
        Some(t) => now >= t && now - t >= ERROR_LOG_PERIOD_US,
    }
}

} // verus!

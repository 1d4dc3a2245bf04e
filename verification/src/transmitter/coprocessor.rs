//! Schedule of the optional coprocessor link.

use vstd::prelude::*;

verus! {

/// Time between probes while the coprocessor is absent.
pub const RETRY_DELAY_US: u64 = 1_000_000;

/// Time between status requests while it is present.
pub const HEARTBEAT_PERIOD_US: u64 = 1_000_000;

/// When to probe and when to ask for the status.
#[derive(Clone, Copy, Debug, PartialEq, Eq, Structural)]
pub struct Schedule {
    pub next_probe_us: u64,
    pub next_heartbeat_us: u64,
}

impl Schedule {
    /// Both are due now.
    pub fn new(now: u64) -> (s: Self)
        ensures
            s == (Schedule { next_probe_us: now, next_heartbeat_us: now }),
    {
        Schedule { next_probe_us: now, next_heartbeat_us: now }
    }

    /// Whether to probe: only an absent coprocessor is.
    pub fn probe_is_due(&self, present: bool, now: u64) -> (due: bool)
        ensures
            due == (!present && now >= self.next_probe_us),
    {
        !present && now >= self.next_probe_us
    }

    /// Takes the result of a probe: an absent coprocessor is probed again
    /// after the retry delay.
    pub fn probed(&mut self, present: bool, now: u64)
        requires
            !present ==> now + RETRY_DELAY_US <= u64::MAX,
        ensures
            *final(self) == (Schedule {
                next_probe_us: if present {
                    old(self).next_probe_us
                } else {
                    (now + RETRY_DELAY_US) as u64
                },
                ..*old(self)
            }),
            !present ==> final(self).next_probe_us - now == 1_000_000,
    {
        if !present {
            self.next_probe_us = now + RETRY_DELAY_US;
        }
    }

    /// Whether to ask for the status now; if so, the next time is a period
    /// later.
    pub fn heartbeat(&mut self, present: bool, now: u64) -> (due: bool)
        requires
            present && now >= old(self).next_heartbeat_us ==> now + HEARTBEAT_PERIOD_US <= u64::MAX,
        ensures
            due == (present && now >= old(self).next_heartbeat_us),
            *final(self) == (Schedule {
                next_heartbeat_us: if due {
                    (now + HEARTBEAT_PERIOD_US) as u64
                } else {
                    old(self).next_heartbeat_us
                },
                ..*old(self)
            }),
            due ==> present && final(self).next_heartbeat_us - now == 1_000_000,
            !due ==> !present || now < old(self).next_heartbeat_us,
    {
        let due = present && now >= self.next_heartbeat_us;
        if due {
            self.next_heartbeat_us = now + HEARTBEAT_PERIOD_US;
        }
        due
    }
}

} // verus!

//! Calibration actions.

use vstd::prelude::*;

verus! {

pub const START: u8 = 1;

pub const ABORT: u8 = 2;

/// Accumulate for `collect_ms`, then respond.
pub const COLLECT: u8 = 3;

pub const DONE: u8 = 4;

} // verus!

//! Calibration outcomes.

use vstd::prelude::*;

verus! {

pub const OK: u8 = 0;

pub const ERR: u8 = 1;

pub const TIMEOUT: u8 = 2;

/// The receiver saturated: retry at lower power.
pub const SAT: u8 = 3;

} // verus!

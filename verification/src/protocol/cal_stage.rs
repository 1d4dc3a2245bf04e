//! Calibration stages.

use vstd::prelude::*;

verus! {

pub const IDENTITY: u8 = 1;

pub const RF_POWER: u8 = 2;

pub const EMPTY_ROOM: u8 = 3;

pub const MOVING_TEST: u8 = 4;

pub const FINGERPRINT: u8 = 5;

} // verus!

//! Flag bits of a measurement packet.

use vstd::prelude::*;

verus! {

/// The frame is part of a calibration stage.
pub const CAL: u8 = 0x01;

/// The frame carries a resync marker.
pub const SYNC: u8 = 0x02;

} // verus!

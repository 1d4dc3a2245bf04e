//! Telemetry frame kinds.

use vstd::prelude::*;

verus! {

pub const STATUS: u8 = 0x01;

pub const WATERFALL: u8 = 0x02;

pub const SPECTROGRAM: u8 = 0x03;

} // verus!

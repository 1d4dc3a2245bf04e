//! Frame types.

use vstd::prelude::*;

verus! {

pub const DATA_FRAME: u8 = 0x10;

pub const FEATURE_REPORT: u8 = 0x11;

pub const CAL_CMD: u8 = 0x12;

pub const CAL_RESP: u8 = 0x13;

pub const STATUS: u8 = 0x14;

/// Low-rate per-subcarrier CSI snapshot (waterfall and spectrogram source).
pub const CSI_SNAPSHOT: u8 = 0x15;

pub const CP_MESSAGE: u8 = 0x20;

} // verus!

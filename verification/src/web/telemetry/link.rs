//! Link identifiers used by matrix frames.

use vstd::prelude::*;

verus! {

pub const RX1: u8 = 1;

pub const RX2: u8 = 2;

pub const FUSED: u8 = 3;

} // verus!

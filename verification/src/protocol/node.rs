//! Node roles.

use vstd::prelude::*;

verus! {

pub const TX: u8 = 0x01;

pub const RX1: u8 = 0x02;

pub const RX2: u8 = 0x03;

pub const RP2350: u8 = 0x04;

} // verus!

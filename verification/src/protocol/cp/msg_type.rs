//! Coprocessor message types.

use vstd::prelude::*;

verus! {

pub const HELLO: u8 = 1;

pub const HELLO_ACK: u8 = 2;

pub const FEATURES: u8 = 3;

pub const SPECTROGRAM: u8 = 4;

pub const CONFIG: u8 = 5;

pub const STATUS: u8 = 6;

pub const RAW_CSI: u8 = 7;

pub const ERROR: u8 = 8;

} // verus!

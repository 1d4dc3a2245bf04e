//! Coprocessor capability flags.

use vstd::prelude::*;

verus! {

pub const STFT: u16 = 0x01;

pub const PCA: u16 = 0x02;

pub const FILTER: u16 = 0x04;

pub const COMPRESS: u16 = 0x08;

pub const DISPLAY: u16 = 0x10;

} // verus!

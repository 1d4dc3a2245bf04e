//! Flag bits of a feature report.

use vstd::prelude::*;

verus! {

/// The CSI ring buffer overflowed in this window.
pub const OVERFLOW: u8 = 0x01;

} // verus!

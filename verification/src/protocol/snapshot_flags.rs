//! Flag bits of a CSI snapshot.

use vstd::prelude::*;

verus! {

/// The CSI ring overflowed since the last snapshot.
pub const OVERFLOW: u8 = 0x01;

} // verus!

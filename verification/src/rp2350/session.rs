//! Link-session helpers: protocol version negotiation and the
//! coprocessor-local sequence counter.

use vstd::prelude::*;

verus! {

/// Lowest wire-protocol version this firmware understands.
pub const MIN_VERSION: u8 = 1;

/// True if the coprocessor's protocol version `remote` is compatible with the
/// local version: exact matches at or above [`MIN_VERSION`].
pub fn compatible(local: u8, remote: u8) -> (ok: bool)
    ensures
        ok == (remote == local && remote >= MIN_VERSION),
{
    remote == local && remote >= MIN_VERSION
}

/// Coprocessor-local sequence counter, independent of the RF sequence.
///
/// Tags outgoing frames so that replies can be correlated and the coprocessor
/// can detect gaps. Wraps at 2^32.
#[derive(Clone, Debug)]
pub struct SeqCounter(u32);

impl View for SeqCounter {
    type V = u32;

    closed spec fn view(&self) -> u32 {
        self.0
    }
}

impl Default for SeqCounter {
    fn default() -> (s: Self)
        ensures
            s@ == 0,
    {
        Self(0)
    }
}

impl SeqCounter {
    pub fn new() -> (s: Self)
        ensures
            s@ == 1,
    {
        Self(1)
    }

    /// Next sequence number.
    pub fn next(&mut self) -> (n: u32)
        ensures
            n == old(self)@,
            final(self)@ == (old(self)@ + 1) % 0x1_0000_0000,
    {
        let s: u32 = self.0;
        self.0 = self.0.wrapping_add(1);
        s
    }
}

} // verus!

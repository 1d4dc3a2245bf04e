//! Link to the optional RP2350 coprocessor.

pub mod framer;
pub mod link;
pub mod session;

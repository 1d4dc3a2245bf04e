//! Host-side RF scenarios: the noise generator, the records of a scenario
//! blob, and what a capture of the replayed scenario holds.

pub mod capture;
pub mod rng;
pub mod scenario;

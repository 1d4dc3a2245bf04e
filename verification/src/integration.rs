//! Multi-node test of the transport: three roles as separate processes, a
//! one-line summary from each, and the checks an orchestrator runs on them.

pub mod checks;
pub mod common;
pub mod roles;
pub mod synth;

//! The transmitter node: its calibration controller, the rings and status
//! behind the dashboard, the pacing of its measurement traffic, and its HTTP
//! endpoints.

pub mod calibrate;
pub mod coprocessor;
pub mod endpoints;
pub mod fusion;
pub mod rings;
pub mod status;
pub mod traffic;
pub mod wired;

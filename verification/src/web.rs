//! Live dashboard: telemetry frames and the fan-out to connected clients.

pub mod fanout;
pub mod telemetry;

//! The receiver node: its role, the statistics of the frames it hears, the
//! calibration collection it runs on command, and the cadence of its reports.

pub mod collect;
pub mod link;
pub mod metrics;
pub mod radar;
pub mod sim;
pub mod window;

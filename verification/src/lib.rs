//! Verified core of a two-receiver WiFi-CSI radar head.

pub mod analysis;
pub mod arith;
pub mod calibration;
pub mod capture;
pub mod crc;
pub mod csi;
pub mod decoder;
pub mod dsp;
pub mod em_sim;
pub mod features;
pub mod generator;
pub mod integration;
pub mod ota;
pub mod protocol;
pub mod receiver;
pub mod replay;
pub mod rf_sim;
pub mod rp2350;
pub mod single;
pub mod storage;
pub mod text;
pub mod transmitter;
pub mod transport;
pub mod web;
pub mod wire;

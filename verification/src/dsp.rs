//! Integer side of the CSI signal processing: which samples of a raw buffer
//! are subcarriers, how transforms are laid out, which value of a series is
//! its median or its peak, and which observations a window holds.

pub mod fft;
pub mod filter;
pub mod metrics;
pub mod pca;
pub mod transform;

pub use crate::protocol::N_SUBCARRIERS;

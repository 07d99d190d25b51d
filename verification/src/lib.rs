//! Integer core of the round AMOLED fluid toy: panel geometry, RGB565
//! colour packing, the static cross-and-ring pattern, disc rasterisation
//! into display bands, the band scheduling of a frame, the power-button
//! debouncer and the byte-level command and sample formats of the panel
//! and the IMU.
use vstd::prelude::*;

pub mod button;
pub mod config;
pub mod display;
pub mod imu;
pub mod pattern;
pub mod render;
pub mod sim;

verus! {

} // verus!

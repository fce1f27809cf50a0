//! Verified core of a driver and firmware for the MLX90640 32×24 thermal
//! camera on a LilyGO T8 board: calibration-word decoding, frame checks,
//! bad-pixel repair planning, colour maps and the button/menu logic.

pub mod words;
pub mod types;
pub mod calibration;
pub mod frame;
pub mod patterns;
pub mod bad_pixels;
pub mod colormap;
pub mod hw;
pub mod apps;
pub mod fmt_buf;
pub mod i2c_compat;

use vstd::prelude::*;

verus! {

/// Number of pixel columns of the sensor.
pub const WIDTH: usize = 32;

/// Number of pixel rows of the sensor.
pub const HEIGHT: usize = 24;

/// Number of pixels of the sensor.
pub const NUM_PIXELS: usize = 768;

/// Default I2C address of the sensor.
pub const ADDRESS: u8 = 0x33;

} // verus!

//! Pixel-grid transforms for a thermal sensor frame: flips, point-of-interest
//! lookup, upscaling, crosshair overlay and JPEG encoding, all agreeing on one
//! row-major coordinate convention (`index = y * width + x`).

pub mod codec;
pub mod config;
pub mod flip;
pub mod grid;
pub mod pipeline;
pub mod poi;
pub mod raster;

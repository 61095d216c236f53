//! Driver logic for a 400x300 black/red e-paper panel: the command protocol,
//! busy-line polling decisions, and the packing of grayscale rasters into the
//! panel's 1-bit-per-pixel planes.

pub mod raster;
pub mod encoder;
pub mod protocol;
pub mod busy;
pub mod driver;

//! Turns an image into dyed variants: every pixel is recolored toward a target hue, then
//! an ordered chain of HSV filters is applied.

pub mod color;
pub mod config;
pub mod engine;
pub mod laws;
pub mod raster;
pub mod round_trip;

pub use engine::{apply_image_filter, apply_pixel_filter, transform_image, Error};

//! Texture, audio and model handling.

pub mod texture;
pub mod audio;
pub mod model;
pub mod raster;

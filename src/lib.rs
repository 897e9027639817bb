//! Synthesis of beam-projector point streams: a procedural spiral colored
//! from a camera raster, and looping playback of frame animations.

pub mod color;
pub mod point;
pub mod raster;
pub mod playback;
pub mod path;
pub mod spiral;
pub mod stream;
pub mod slot;

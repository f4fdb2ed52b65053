//! Deterministic Mandelbrot avatar core: viewport descriptors, their binary
//! wire codec, escape-time colouring, whole-image transforms, and overlay
//! compositing.

pub mod codec;
pub mod config;
pub mod errors;
pub mod ieee754;
pub mod image_params;
pub mod png_io;
pub mod post_processing;
pub mod render;
pub mod token;
pub mod transforms;

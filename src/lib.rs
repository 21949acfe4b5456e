//! Pixel storage and image encoding for a ray tracer.
//!
//! `canvas` holds a fixed-size, row-major grid of pixels; `ppm` turns a grid
//! of quantised pixels into the plain-text "P3" image format.

pub mod canvas;
pub mod ppm;

//! Escape-time rendering of the Mandelbrot set over fixed-point plane
//! coordinates.
//!
//! Plane coordinates, zoom levels and speeds are Q31.32 fixed-point
//! values: an `i64` holding the plane value scaled by 2^32. The crate
//! provides the escape-time evaluator, the viewport/navigation model
//! that maps pixels to the plane and reacts to pan and zoom commands,
//! and the frame renderer that fills an RGBA pixel buffer.

pub mod config;
pub mod fixed;
pub mod mandelbrot;
pub mod render;
pub mod viewport;

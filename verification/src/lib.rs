//! A flocking ("boids") simulation over fixed-point arithmetic.
//!
//! Every quantity is a [`fixed::Fixed`] number with sixteen fractional bits,
//! so a run is reproducible bit for bit on every machine. The steering rules
//! and the tick of the whole flock are stated as mathematical functions and
//! the executable code is proved to compute them.

pub mod fixed;
pub mod vector;
pub mod utils;
pub mod flock;
pub mod render;

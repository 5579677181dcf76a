//! The fractal variants and the per-frame interaction they share.

pub mod fractal;
pub mod julia;
pub mod mandelbrot;

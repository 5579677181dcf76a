//! A viewport/interaction engine for escape-time fractal viewers.
//!
//! The library owns the mapping between screen pixels and the complex
//! plane: the visible rectangle (`viewport`), the cursor-anchored zoom and
//! drag-to-pan transforms (`fractals`), and the per-variant state of the
//! Mandelbrot and Julia fractals.  All coordinates are exact rational
//! numbers (`rational`), so the geometric laws of the transforms are
//! proved as theorems rather than approximated.

pub mod fractals;
pub mod rational;
pub mod viewport;

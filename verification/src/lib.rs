//! Escape-time fractal engine: extended-precision numeric backends, a generic
//! Mandelbrot kernel, a tiled executor and the command-driven render loop.

pub mod executor;
pub mod fractal_builder;
pub mod fractals;
pub mod pipe;
pub mod soft_float;

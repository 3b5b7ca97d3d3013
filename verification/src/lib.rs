//! Escape-time rendering of the Mandelbrot set onto a pixel grid.
//!
//! The engine owns two byte buffers of a fixed size: the plot, one iteration
//! count per pixel, and the colour buffer, four bytes of RGBA per pixel. The
//! floating-point evaluation of an orbit is the caller's business; the engine
//! takes the outcome of each pixel, caps it, stores it and colours it.

pub mod color;
pub mod engine;
pub mod escape;
pub mod grid;

pub use color::Rgba;
pub use engine::Mandelbrot;
pub use escape::Orbit;

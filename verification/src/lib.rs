//! A verified Mandelbrot renderer and the small numeric utilities around it.
//!
//! The renderer maps a pixel grid onto a viewport of the complex plane,
//! runs a bounded escape test on every pixel, and fills a grayscale buffer
//! either sequentially or split into row bands handed to parallel workers.

pub mod bands;
pub mod complex;
pub mod escape;
pub mod gcd;
pub mod mapper;
pub mod numerics;
pub mod parallel;
pub mod parsing;
pub mod render;
pub mod replace;

//! Pixel-level image editing with machine-checked contracts.
//!
//! An [`Image`] is a rectangular grid of RGBA pixels, with a [`Layout`] that
//! says which of the four channels it uses.  Every operation of the library
//! states, as a `Grid` of pixels, exactly which image it returns.

pub mod canvas;
pub mod command;
pub mod laws;
pub mod number;
pub mod pixel;
pub mod raster;
pub mod transform;

pub use canvas::{filled, fractal, fractal_pixel, generate, gradient};
pub use command::{parse_operation, CommandError, Operation};
pub use number::{parse_i32, parse_u32, parse_u8};
pub use pixel::{Color, Pixel};
pub use raster::{Grid, Image, Layout};
pub use transform::{brighten, crop, grayscale, invert, rotate, CropError};

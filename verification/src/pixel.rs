//! Colours and pixels.

use vstd::prelude::*;

verus! {

/// The largest value of a channel: full intensity, or full opacity for alpha.
pub const CHANNEL_MAX: u8 = 255;

/// A colour given by its red, green and blue channels.
#[derive(Clone, Copy, Debug, PartialEq, Eq, Structural)]
pub struct Color {
    pub r: u8,
    pub g: u8,
    pub b: u8,
}

/// One pixel of an image: three colour channels and an alpha channel.
#[derive(Clone, Copy, Debug, PartialEq, Eq, Structural)]
pub struct Pixel {
    pub r: u8,
    pub g: u8,
    pub b: u8,
    pub a: u8,
}

impl Color {
    /// The fully opaque pixel of this colour.
    pub open spec fn opaque(self) -> Pixel {
        Pixel { r: self.r, g: self.g, b: self.b, a: CHANNEL_MAX }
    }

    /// Returns the fully opaque pixel of this colour.
    pub fn to_pixel(self) -> (p: Pixel)
        ensures
            p == self.opaque(),
    {
        Pixel { r: self.r, g: self.g, b: self.b, a: CHANNEL_MAX }
    }
}

impl Pixel {
    /// The opaque grey pixel of the given level.
    pub open spec fn gray_of(level: u8) -> Pixel {
        Pixel { r: level, g: level, b: level, a: CHANNEL_MAX }
    }

    /// Returns the opaque grey pixel of the given level.
    pub fn gray(level: u8) -> (p: Pixel)
        ensures
            p == Pixel::gray_of(level),
    {
        Pixel { r: level, g: level, b: level, a: CHANNEL_MAX }
    }

    /// The colour of this pixel, without its alpha channel.
    pub open spec fn color(self) -> Color {
        Color { r: self.r, g: self.g, b: self.b }
    }

    /// Returns the colour of this pixel, without its alpha channel.
    pub fn to_color(self) -> (c: Color)
        ensures
            c == self.color(),
    {
        Color { r: self.r, g: self.g, b: self.b }
    }
}

} // verus!

//! The decoded picture: pixels of four 16-bit channels in row-major order.

use vstd::prelude::*;

verus! {

/// One pixel: red, green, blue and alpha, each in the 16-bit range.
#[derive(Debug, Clone, Copy, PartialEq, Eq, Structural)]
pub struct PixelData {
    pub r: u16,
    pub g: u16,
    pub b: u16,
    pub a: u16,
}

impl PixelData {
    /// The pixel with the given channels.
    pub fn new(r: u16, g: u16, b: u16, a: u16) -> (pixel: PixelData)
        ensures
            pixel == (PixelData { r, g, b, a }),
    {
        PixelData { r, g, b, a }
    }

    /// Opaque white.
    pub fn white() -> (pixel: PixelData)
        ensures
            pixel == (PixelData { r: 65535, g: 65535, b: 65535, a: 65535 }),
    {
        PixelData::new(65535, 65535, 65535, 65535)
    }

    /// Opaque black.
    pub fn black() -> (pixel: PixelData)
        ensures
            pixel == (PixelData { r: 0, g: 0, b: 0, a: 65535 }),
    {
        PixelData::new(0, 0, 0, 65535)
    }

    /// The four channels: red, green, blue, alpha.
    pub fn rgba(&self) -> (channels: (u16, u16, u16, u16))
        ensures
            channels == (self.r, self.g, self.b, self.a),
    {
        (self.r, self.g, self.b, self.a)
    }
}

/// A decoded image: its pixels row by row, from the top left.
#[derive(Debug, Clone)]
pub struct ImageData {
    pub width: u32,
    pub height: u32,
    pub pixels: Vec<PixelData>,
}

/// The mathematical value of an `ImageData`.
pub struct Picture {
    pub width: u32,
    pub height: u32,
    pub pixels: Seq<PixelData>,
}

impl View for ImageData {
    type V = Picture;

    open spec fn view(&self) -> Picture {
        Picture { width: self.width, height: self.height, pixels: self.pixels@ }
    }
}

impl ImageData {
    /// The image with the given size and pixels.
    pub fn new(width: u32, height: u32, pixels: Vec<PixelData>) -> (image: ImageData)
        ensures
            image@ == (Picture { width, height, pixels: pixels@ }),
    {
        ImageData { width, height, pixels }
    }
}

} // verus!

//! What a window shows of a decoded image: the bytes of its frame.

use vstd::prelude::*;
use crate::pixel::{ImageData, PixelData};

verus! {

/// A decoded image that is to be shown.
#[derive(Debug)]
pub struct Window {
    pub image_data: ImageData,
}

/// What the frame holds for a channel: half its value, cut to eight bits.
pub open spec fn frame_byte(channel: u16) -> u8 {
    ((channel as int / 2) % 256) as u8
}

/// The frame of a sequence of pixels: four bytes for each pixel, in the order
/// red, green, blue, alpha.
pub open spec fn frame_of(pixels: Seq<PixelData>) -> Seq<u8> {
    Seq::new(
        4 * pixels.len(),
        |k: int|
            if k % 4 == 0 {
                frame_byte(pixels[k / 4].r)
            } else if k % 4 == 1 {
                frame_byte(pixels[k / 4].g)
            } else if k % 4 == 2 {
                frame_byte(pixels[k / 4].b)
            } else {
                frame_byte(pixels[k / 4].a)
            },
    )
}

fn halve(channel: u16) -> (byte: u8)
    ensures
        byte == frame_byte(channel),
{
    ((channel / 2) % 256) as u8
}

impl Window {
    /// The window that is to show the image.
    pub fn new(image_data: ImageData) -> (window: Window)
        ensures
            window.image_data == image_data,
    {
        Window { image_data }
    }

    /// The bytes of the frame that shows the image.
    pub fn frame(&self) -> (frame: Vec<u8>)
        ensures
            frame@ == frame_of(self.image_data.pixels@),
    {
        let mut frame: Vec<u8> = Vec::new();
        let mut index: usize = 0;
        while index < self.image_data.pixels.len()
            invariant
                index <= self.image_data.pixels@.len(),
                frame@ == frame_of(self.image_data.pixels@.take(index as int)),
            decreases self.image_data.pixels@.len() - index,
        {
            let (r, g, b, a) = self.image_data.pixels[index].rgba();
            frame.push(halve(r));
            frame.push(halve(g));
            frame.push(halve(b));
            frame.push(halve(a));
            index = index + 1;
            assert(frame@ =~= frame_of(self.image_data.pixels@.take(index as int)));
        }
        assert(self.image_data.pixels@.take(index as int) =~= self.image_data.pixels@);
        frame
    }
}

} // verus!

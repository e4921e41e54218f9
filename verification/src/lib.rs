//! A verified PNG decoding pipeline: chunk framing and checksums, chunk-order
//! validation, header interpretation, scanline reconstruction, Adam7
//! de-interlacing and pixel composition.

pub mod bytes;
pub mod encoders;
pub mod pixel;
pub mod png;
pub mod text;
pub mod window;

pub use crate::encoders::{Encodable, Encoder, EncoderError};
pub use crate::pixel::{ImageData, PixelData};
pub use crate::window::Window;
pub use crate::bytes::{u32_to_u8, u8_to_u16, u8_to_u32};
pub use crate::text::{data_as_dec, data_as_hex, u32_to_bin, u32_to_dec, u32_to_hex};

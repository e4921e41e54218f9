//! The fields of the image header and the rules that bind them.

use vstd::prelude::*;
use vstd::string::*;
use crate::bytes::{be32, u8_to_u32};
use crate::encoders::{outcome, EncoderError, Failure};
use crate::text::{decimal, push_decimal};

verus! {

/// The number of bits in one sample.
#[derive(Debug, Clone, Copy, PartialEq, Eq, Structural)]
pub enum BitDepth {
    One,
    Two,
    Four,
    Eight,
    Sixteen,
}

/// How the samples of a pixel are to be read.
#[derive(Debug, Clone, Copy, PartialEq, Eq, Structural)]
pub enum ColorType {
    Grayscale,
    Truecolor,
    IndexedColor,
    GrayscaleAlpha,
    TruecolorAlpha,
}

/// How the image data is compressed.
#[derive(Debug, Clone, Copy, PartialEq, Eq, Structural)]
pub enum CompressionMethod {
    Deflate,
}

/// How the scanlines are filtered before compression.
#[derive(Debug, Clone, Copy, PartialEq, Eq, Structural)]
pub enum FilterMethod {
    Adaptive,
}

/// The order in which the pixels are transmitted.
#[derive(Debug, Clone, Copy, PartialEq, Eq, Structural)]
pub enum InterlaceMethod {
    /// The rows follow each other from top to bottom.
    NoInterlace,
    /// Seven passes, each a reduced image of its own.
    Adam7,
}

/// The text `Invalid bit depth: ` and the depth in decimal.
pub open spec fn invalid_bit_depth(value: u8) -> Failure {
    Failure::InvalidData("Invalid bit depth: "@ + decimal(value as nat))
}

/// The bit depth that a header byte stands for.
pub open spec fn bit_depth_of(value: u8) -> Result<BitDepth, Failure> {
    if value == 1 {
        Ok(BitDepth::One)
    } else if value == 2 {
        Ok(BitDepth::Two)
    } else if value == 4 {
        Ok(BitDepth::Four)
    } else if value == 8 {
        Ok(BitDepth::Eight)
    } else if value == 16 {
        Ok(BitDepth::Sixteen)
    } else {
        Err(invalid_bit_depth(value))
    }
}

impl BitDepth {
    /// The number of bits.
    pub open spec fn bits(self) -> int {
        match self {
            BitDepth::One => 1,
            BitDepth::Two => 2,
            BitDepth::Four => 4,
            BitDepth::Eight => 8,
            BitDepth::Sixteen => 16,
        }
    }

    /// The largest value a sample of this depth can have.
    pub open spec fn max_sample(self) -> int {
        match self {
            BitDepth::One => 1,
            BitDepth::Two => 3,
            BitDepth::Four => 15,
            BitDepth::Eight => 255,
            BitDepth::Sixteen => 65535,
        }
    }

    /// The number of bits.
    pub fn value(&self) -> (bits: u8)
        ensures
            bits == self.bits(),
    {
        match self {
            Self::One => 1,
            Self::Two => 2,
            Self::Four => 4,
            Self::Eight => 8,
            Self::Sixteen => 16,
        }
    }

    /// Reads the bit depth from its header byte: 1, 2, 4, 8 and 16 are legal.
    pub fn from_u8(value: u8) -> (depth: Result<BitDepth, EncoderError>)
        ensures
            outcome(depth) == bit_depth_of(value),
    {
        match value {
            1 => Ok(BitDepth::One),
            2 => Ok(BitDepth::Two),
            4 => Ok(BitDepth::Four),
            8 => Ok(BitDepth::Eight),
            16 => Ok(BitDepth::Sixteen),
            _ => {
                let mut message = String::from_str("Invalid bit depth: ");
                push_decimal(&mut message, value as u64);
                Err(EncoderError::InvalidData(message))
            },
        }
    }
}

/// The colour type with the given code, whatever the bit depth.
pub open spec fn color_type_with_code(value: u8) -> Option<ColorType> {
    if value == 0 {
        Some(ColorType::Grayscale)
    } else if value == 2 {
        Some(ColorType::Truecolor)
    } else if value == 3 {
        Some(ColorType::IndexedColor)
    } else if value == 4 {
        Some(ColorType::GrayscaleAlpha)
    } else if value == 6 {
        Some(ColorType::TruecolorAlpha)
    } else {
        None
    }
}

/// The text `Invalid color type: ` and the code in decimal.
pub open spec fn invalid_color_type(value: u8) -> Failure {
    Failure::InvalidData("Invalid color type: "@ + decimal(value as nat))
}

/// The text that names a bit depth and the colour code it does not go with.
pub open spec fn invalid_combination(bit_depth: BitDepth, value: u8) -> Failure {
    Failure::InvalidData(
        "Invalid bit depth: "@ + decimal(bit_depth.bits() as nat) + " for color type: "@ + decimal(
            value as nat,
        ),
    )
}

/// The colour type that a header byte stands for beside the given bit depth.
pub open spec fn color_type_of(value: u8, bit_depth: BitDepth) -> Result<ColorType, Failure> {
    match color_type_with_code(value) {
        None => Err(invalid_color_type(value)),
        Some(color_type) => if color_type.allows(bit_depth) {
            Ok(color_type)
        } else {
            Err(invalid_combination(bit_depth, value))
        },
    }
}

impl ColorType {
    /// The code of the colour type in the header.
    pub open spec fn code(self) -> int {
        match self {
            ColorType::Grayscale => 0,
            ColorType::Truecolor => 2,
            ColorType::IndexedColor => 3,
            ColorType::GrayscaleAlpha => 4,
            ColorType::TruecolorAlpha => 6,
        }
    }

    /// The number of samples in one pixel.
    pub open spec fn channels(self) -> int {
        match self {
            ColorType::Grayscale => 1,
            ColorType::Truecolor => 3,
            ColorType::IndexedColor => 1,
            ColorType::GrayscaleAlpha => 2,
            ColorType::TruecolorAlpha => 4,
        }
    }

    /// Whether the colour type may be used with the bit depth.
    pub open spec fn allows(self, bit_depth: BitDepth) -> bool {
        match self {
            ColorType::Grayscale => true,
            ColorType::IndexedColor => bit_depth != BitDepth::Sixteen,
            ColorType::Truecolor | ColorType::GrayscaleAlpha | ColorType::TruecolorAlpha => {
                bit_depth == BitDepth::Eight || bit_depth == BitDepth::Sixteen
            },
        }
    }

    /// The code of the colour type in the header.
    pub fn value(&self) -> (code: u8)
        ensures
            code == self.code(),
    {
        match self {
            Self::Grayscale => 0,
            Self::Truecolor => 2,
            Self::IndexedColor => 3,
            Self::GrayscaleAlpha => 4,
            Self::TruecolorAlpha => 6,
        }
    }

    /// The number of samples in one pixel.
    pub fn channel_count(&self) -> (count: u8)
        ensures
            count == self.channels(),
    {
        match self {
            Self::Grayscale => 1,
            Self::Truecolor => 3,
            Self::IndexedColor => 1,
            Self::GrayscaleAlpha => 2,
            Self::TruecolorAlpha => 4,
        }
    }

    fn mismatch(value: u8, bit_depth: &BitDepth) -> (e: EncoderError)
        ensures
            e@ == invalid_combination(*bit_depth, value),
    {
        let mut message = String::from_str("Invalid bit depth: ");
        push_decimal(&mut message, bit_depth.value() as u64);
        message.append(" for color type: ");
        push_decimal(&mut message, value as u64);
        EncoderError::InvalidData(message)
    }

    /// Reads the colour type from its header byte and checks it against the bit
    /// depth: grayscale goes with every depth, indexed colour with every depth
    /// but 16, the others with 8 and 16 only.
    pub fn from_u8_and_bit_depth(value: u8, bit_depth: &BitDepth) -> (color_type: Result<
        ColorType,
        EncoderError,
    >)
        ensures
            outcome(color_type) == color_type_of(value, *bit_depth),
    {
        match value {
            0 => Ok(ColorType::Grayscale),
            2 => match bit_depth {
                BitDepth::Eight => Ok(ColorType::Truecolor),
                BitDepth::Sixteen => Ok(ColorType::Truecolor),
                _ => Err(Self::mismatch(value, bit_depth)),
            },
            3 => match bit_depth {
                BitDepth::One => Ok(ColorType::IndexedColor),
                BitDepth::Two => Ok(ColorType::IndexedColor),
                BitDepth::Four => Ok(ColorType::IndexedColor),
                BitDepth::Eight => Ok(ColorType::IndexedColor),
                _ => Err(Self::mismatch(value, bit_depth)),
            },
            4 => match bit_depth {
                BitDepth::Eight => Ok(ColorType::GrayscaleAlpha),
                BitDepth::Sixteen => Ok(ColorType::GrayscaleAlpha),
                _ => Err(Self::mismatch(value, bit_depth)),
            },
            6 => match bit_depth {
                BitDepth::Eight => Ok(ColorType::TruecolorAlpha),
                BitDepth::Sixteen => Ok(ColorType::TruecolorAlpha),
                _ => Err(Self::mismatch(value, bit_depth)),
            },
            _ => {
                let mut message = String::from_str("Invalid color type: ");
                push_decimal(&mut message, value as u64);
                Err(EncoderError::InvalidData(message))
            },
        }
    }
}

/// The compression method that a header byte stands for.
pub open spec fn compression_method_of(value: u8) -> Result<CompressionMethod, Failure> {
    if value == 0 {
        Ok(CompressionMethod::Deflate)
    } else {
        Err(Failure::InvalidData("Invalid compression method: "@ + decimal(value as nat)))
    }
}

impl CompressionMethod {
    /// The code of the method in the header.
    pub fn value(&self) -> (code: u8)
        ensures
            code == 0,
    {
        match self {
            Self::Deflate => 0,
        }
    }

    /// Reads the compression method from its header byte: only 0 is legal.
    pub fn from_u8(value: u8) -> (method: Result<CompressionMethod, EncoderError>)
        ensures
            outcome(method) == compression_method_of(value),
    {
        match value {
            0 => Ok(CompressionMethod::Deflate),
            _ => {
                let mut message = String::from_str("Invalid compression method: ");
                push_decimal(&mut message, value as u64);
                Err(EncoderError::InvalidData(message))
            },
        }
    }
}

/// The filter method that a header byte stands for.
pub open spec fn filter_method_of(value: u8) -> Result<FilterMethod, Failure> {
    if value == 0 {
        Ok(FilterMethod::Adaptive)
    } else {
        Err(Failure::InvalidData("Invalid filter method: "@ + decimal(value as nat)))
    }
}

impl FilterMethod {
    /// The code of the method in the header.
    pub fn value(&self) -> (code: u8)
        ensures
            code == 0,
    {
        match self {
            Self::Adaptive => 0,
        }
    }

    /// Reads the filter method from its header byte: only 0 is legal.
    pub fn from_u8(value: u8) -> (method: Result<FilterMethod, EncoderError>)
        ensures
            outcome(method) == filter_method_of(value),
    {
        match value {
            0 => Ok(FilterMethod::Adaptive),
            _ => {
                let mut message = String::from_str("Invalid filter method: ");
                push_decimal(&mut message, value as u64);
                Err(EncoderError::InvalidData(message))
            },
        }
    }
}

/// The interlace method that a header byte stands for.
pub open spec fn interlace_method_of(value: u8) -> Result<InterlaceMethod, Failure> {
    if value == 0 {
        Ok(InterlaceMethod::NoInterlace)
    } else if value == 1 {
        Ok(InterlaceMethod::Adam7)
    } else {
        Err(Failure::InvalidData("Invalid interlace method: "@ + decimal(value as nat)))
    }
}

impl InterlaceMethod {
    /// The code of the method in the header.
    pub open spec fn code(self) -> int {
        match self {
            InterlaceMethod::NoInterlace => 0,
            InterlaceMethod::Adam7 => 1,
        }
    }

    /// The code of the method in the header.
    pub fn value(&self) -> (code: u8)
        ensures
            code == self.code(),
    {
        match self {
            Self::NoInterlace => 0,
            Self::Adam7 => 1,
        }
    }

    /// Reads the interlace method from its header byte: 0 and 1 are legal.
    pub fn from_u8(value: u8) -> (method: Result<InterlaceMethod, EncoderError>)
        ensures
            outcome(method) == interlace_method_of(value),
    {
        match value {
            0 => Ok(InterlaceMethod::NoInterlace),
            1 => Ok(InterlaceMethod::Adam7),
            _ => {
                let mut message = String::from_str("Invalid interlace method: ");
                push_decimal(&mut message, value as u64);
                Err(EncoderError::InvalidData(message))
            },
        }
    }
}

/// What the image header says of the image.
#[derive(Debug, Clone, Copy)]
pub struct PngFileMetadata {
    pub width: u32,
    pub height: u32,
    pub bit_depth: BitDepth,
    pub color_type: ColorType,
    pub compression_method: CompressionMethod,
    pub filter_method: FilterMethod,
    pub interlace_method: InterlaceMethod,
}

impl PngFileMetadata {
    /// What every header that was read from bytes satisfies: the dimensions are
    /// not zero and the colour type goes with the bit depth.
    pub open spec fn valid(self) -> bool {
        &&& self.width > 0
        &&& self.height > 0
        &&& self.color_type.allows(self.bit_depth)
    }

    /// The number of bits in one pixel.
    pub open spec fn bits_per_pixel(self) -> int {
        self.color_type.channels() * self.bit_depth.bits()
    }
}

/// The number of bytes in a well-formed header.
pub const HEADER_LENGTH: usize = 13;

/// What the payload of a header chunk says: the fields are read from the first
/// thirteen bytes and checked in the order dimensions, bit depth, colour type,
/// compression method, filter method, interlace method. The first check that
/// fails gives the failure.
pub open spec fn header_of(payload: Seq<u8>) -> Result<PngFileMetadata, Failure> {
    if payload.len() < HEADER_LENGTH {
        Err(Failure::InvalidData("IHDR chunk is too small"@))
    } else {
        let width = be32(payload[0], payload[1], payload[2], payload[3]) as u32;
        let height = be32(payload[4], payload[5], payload[6], payload[7]) as u32;
        if width == 0 || height == 0 {
            Err(Failure::InvalidImageDimensions("Width or height is 0"@))
        } else {
            match bit_depth_of(payload[8]) {
                Err(e) => Err(e),
                Ok(bit_depth) => match color_type_of(payload[9], bit_depth) {
                    Err(e) => Err(e),
                    Ok(color_type) => match compression_method_of(payload[10]) {
                        Err(e) => Err(e),
                        Ok(compression_method) => match filter_method_of(payload[11]) {
                            Err(e) => Err(e),
                            Ok(filter_method) => match interlace_method_of(payload[12]) {
                                Err(e) => Err(e),
                                Ok(interlace_method) => Ok(
                                    PngFileMetadata {
                                        width,
                                        height,
                                        bit_depth,
                                        color_type,
                                        compression_method,
                                        filter_method,
                                        interlace_method,
                                    },
                                ),
                            },
                        },
                    },
                },
            }
        }
    }
}

/// Reads and checks the header from the payload of its chunk.
pub fn read_header(payload: &[u8]) -> (header: Result<PngFileMetadata, EncoderError>)
    ensures
        outcome(header) == header_of(payload@),
        header matches Ok(h) ==> h.valid(),
{
    if payload.len() < HEADER_LENGTH {
        return Err(EncoderError::invalid_data("IHDR chunk is too small"));
    }
    let width = u8_to_u32(payload[0], payload[1], payload[2], payload[3]);
    let height = u8_to_u32(payload[4], payload[5], payload[6], payload[7]);
    if width == 0 || height == 0 {
        return Err(EncoderError::invalid_dimensions("Width or height is 0"));
    }
    let bit_depth = match BitDepth::from_u8(payload[8]) {
        Ok(bit_depth) => bit_depth,
        Err(e) => {
            return Err(e);
        },
    };
    let color_type = match ColorType::from_u8_and_bit_depth(payload[9], &bit_depth) {
        Ok(color_type) => color_type,
        Err(e) => {
            return Err(e);
        },
    };
    let compression_method = match CompressionMethod::from_u8(payload[10]) {
        Ok(compression_method) => compression_method,
        Err(e) => {
            return Err(e);
        },
    };
    let filter_method = match FilterMethod::from_u8(payload[11]) {
        Ok(filter_method) => filter_method,
        Err(e) => {
            return Err(e);
        },
    };
    let interlace_method = match InterlaceMethod::from_u8(payload[12]) {
        Ok(interlace_method) => interlace_method,
        Err(e) => {
            return Err(e);
        },
    };
    Ok(
        PngFileMetadata {
            width,
            height,
            bit_depth,
            color_type,
            compression_method,
            filter_method,
            interlace_method,
        },
    )
}

} // verus!

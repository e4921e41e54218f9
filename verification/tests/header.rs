use png_decoder::encoders::EncoderError;
use png_decoder::png::header::read_header;
use png_decoder::png::{
    bytes_per_scanline, BitDepth, ColorType, CompressionMethod, FilterMethod, InterlaceMethod,
};
use png_decoder::png::scanline::bytes_per_pixel;

#[test]
fn test_bytes_per_scanline() {
    assert_eq!(
        bytes_per_scanline(32, &ColorType::Grayscale, &BitDepth::One),
        4
    );
    assert_eq!(
        bytes_per_scanline(33, &ColorType::Grayscale, &BitDepth::One),
        5
    );
}

#[test]
fn bytes_per_scanline_of_every_colour_type() {
    assert_eq!(bytes_per_scanline(0, &ColorType::Grayscale, &BitDepth::One), 0);
    assert_eq!(bytes_per_scanline(1, &ColorType::Grayscale, &BitDepth::One), 1);
    assert_eq!(bytes_per_scanline(8, &ColorType::Grayscale, &BitDepth::One), 1);
    assert_eq!(bytes_per_scanline(9, &ColorType::Grayscale, &BitDepth::One), 2);
    assert_eq!(bytes_per_scanline(5, &ColorType::Grayscale, &BitDepth::Two), 2);
    assert_eq!(bytes_per_scanline(3, &ColorType::IndexedColor, &BitDepth::Four), 2);
    assert_eq!(bytes_per_scanline(7, &ColorType::Grayscale, &BitDepth::Eight), 7);
    assert_eq!(bytes_per_scanline(7, &ColorType::Grayscale, &BitDepth::Sixteen), 14);
    assert_eq!(bytes_per_scanline(7, &ColorType::GrayscaleAlpha, &BitDepth::Eight), 14);
    assert_eq!(bytes_per_scanline(7, &ColorType::Truecolor, &BitDepth::Eight), 21);
    assert_eq!(bytes_per_scanline(7, &ColorType::Truecolor, &BitDepth::Sixteen), 42);
    assert_eq!(bytes_per_scanline(7, &ColorType::TruecolorAlpha, &BitDepth::Eight), 28);
    assert_eq!(bytes_per_scanline(7, &ColorType::TruecolorAlpha, &BitDepth::Sixteen), 56);
    assert_eq!(
        bytes_per_scanline(u32::MAX, &ColorType::TruecolorAlpha, &BitDepth::Sixteen),
        8 * (u32::MAX as u64)
    );
}

#[test]
fn bytes_from_pixel_to_pixel() {
    assert_eq!(bytes_per_pixel(&ColorType::Grayscale, &BitDepth::One), 1);
    assert_eq!(bytes_per_pixel(&ColorType::Grayscale, &BitDepth::Four), 1);
    assert_eq!(bytes_per_pixel(&ColorType::Grayscale, &BitDepth::Eight), 1);
    assert_eq!(bytes_per_pixel(&ColorType::Grayscale, &BitDepth::Sixteen), 2);
    assert_eq!(bytes_per_pixel(&ColorType::GrayscaleAlpha, &BitDepth::Eight), 2);
    assert_eq!(bytes_per_pixel(&ColorType::Truecolor, &BitDepth::Eight), 3);
    assert_eq!(bytes_per_pixel(&ColorType::Truecolor, &BitDepth::Sixteen), 6);
    assert_eq!(bytes_per_pixel(&ColorType::TruecolorAlpha, &BitDepth::Eight), 4);
    assert_eq!(bytes_per_pixel(&ColorType::TruecolorAlpha, &BitDepth::Sixteen), 8);
}

#[test]
fn bit_depth_from_byte() {
    assert_eq!(BitDepth::from_u8(1).unwrap(), BitDepth::One);
    assert_eq!(BitDepth::from_u8(2).unwrap(), BitDepth::Two);
    assert_eq!(BitDepth::from_u8(4).unwrap(), BitDepth::Four);
    assert_eq!(BitDepth::from_u8(8).unwrap(), BitDepth::Eight);
    assert_eq!(BitDepth::from_u8(16).unwrap(), BitDepth::Sixteen);
    for value in [0u8, 3, 5, 7, 9, 15, 17, 32, 255] {
        let e = BitDepth::from_u8(value).err().unwrap();
        assert!(matches!(e, EncoderError::InvalidData(_)));
        assert_eq!(e.message(), format!("Invalid bit depth: {}", value));
    }
    for depth in [BitDepth::One, BitDepth::Two, BitDepth::Four, BitDepth::Eight, BitDepth::Sixteen] {
        assert_eq!(BitDepth::from_u8(depth.value()).unwrap(), depth);
    }
}

#[test]
fn color_type_from_byte_and_bit_depth() {
    let depths = [BitDepth::One, BitDepth::Two, BitDepth::Four, BitDepth::Eight, BitDepth::Sixteen];
    let table: [(u8, ColorType, [bool; 5]); 5] = [
        (0, ColorType::Grayscale, [true, true, true, true, true]),
        (2, ColorType::Truecolor, [false, false, false, true, true]),
        (3, ColorType::IndexedColor, [true, true, true, true, false]),
        (4, ColorType::GrayscaleAlpha, [false, false, false, true, true]),
        (6, ColorType::TruecolorAlpha, [false, false, false, true, true]),
    ];
    for (code, color_type, allowed) in table {
        assert_eq!(color_type.value(), code);
        for (depth, ok) in depths.iter().zip(allowed) {
            let read = ColorType::from_u8_and_bit_depth(code, depth);
            if ok {
                assert_eq!(read.unwrap(), color_type);
            } else {
                let e = read.err().unwrap();
                assert!(matches!(e, EncoderError::InvalidData(_)));
                assert_eq!(
                    e.message(),
                    format!("Invalid bit depth: {} for color type: {}", depth.value(), code)
                );
            }
        }
    }
    for code in [1u8, 5, 7, 8, 200] {
        let e = ColorType::from_u8_and_bit_depth(code, &BitDepth::Eight).err().unwrap();
        assert!(matches!(e, EncoderError::InvalidData(_)));
        assert_eq!(e.message(), format!("Invalid color type: {}", code));
    }
}

#[test]
fn header_eight_bits_go_with_indexed_colour() {
    assert_eq!(
        ColorType::from_u8_and_bit_depth(3, &BitDepth::Eight).unwrap(),
        ColorType::IndexedColor
    );
    let e = ColorType::from_u8_and_bit_depth(3, &BitDepth::Sixteen).err().unwrap();
    assert_eq!(e.message(), "Invalid bit depth: 16 for color type: 3");
    let e = BitDepth::from_u8(3).err().unwrap();
    assert_eq!(e.message(), "Invalid bit depth: 3");
}

#[test]
fn channel_counts() {
    assert_eq!(ColorType::Grayscale.channel_count(), 1);
    assert_eq!(ColorType::Truecolor.channel_count(), 3);
    assert_eq!(ColorType::IndexedColor.channel_count(), 1);
    assert_eq!(ColorType::GrayscaleAlpha.channel_count(), 2);
    assert_eq!(ColorType::TruecolorAlpha.channel_count(), 4);
}

#[test]
fn methods_from_bytes() {
    assert_eq!(CompressionMethod::from_u8(0).unwrap(), CompressionMethod::Deflate);
    assert_eq!(CompressionMethod::Deflate.value(), 0);
    let e = CompressionMethod::from_u8(1).err().unwrap();
    assert!(matches!(e, EncoderError::InvalidData(_)));
    assert_eq!(e.message(), "Invalid compression method: 1");

    assert_eq!(FilterMethod::from_u8(0).unwrap(), FilterMethod::Adaptive);
    assert_eq!(FilterMethod::Adaptive.value(), 0);
    let e = FilterMethod::from_u8(9).err().unwrap();
    assert!(matches!(e, EncoderError::InvalidData(_)));
    assert_eq!(e.message(), "Invalid filter method: 9");

    assert_eq!(InterlaceMethod::from_u8(0).unwrap(), InterlaceMethod::NoInterlace);
    assert_eq!(InterlaceMethod::from_u8(1).unwrap(), InterlaceMethod::Adam7);
    assert_eq!(InterlaceMethod::NoInterlace.value(), 0);
    assert_eq!(InterlaceMethod::Adam7.value(), 1);
    let e = InterlaceMethod::from_u8(2).err().unwrap();
    assert!(matches!(e, EncoderError::InvalidData(_)));
    assert_eq!(e.message(), "Invalid interlace method: 2");
}

fn payload(width: u32, height: u32, rest: [u8; 5]) -> Vec<u8> {
    let mut bytes = Vec::new();
    bytes.extend_from_slice(&width.to_be_bytes());
    bytes.extend_from_slice(&height.to_be_bytes());
    bytes.extend_from_slice(&rest);
    bytes
}

#[test]
fn header_is_read_from_thirteen_bytes() {
    let header = read_header(&payload(0x01020304, 0x0A0B0C0D, [16, 6, 0, 0, 1])).unwrap();
    assert_eq!(header.width, 0x01020304);
    assert_eq!(header.height, 0x0A0B0C0D);
    assert_eq!(header.bit_depth, BitDepth::Sixteen);
    assert_eq!(header.color_type, ColorType::TruecolorAlpha);
    assert_eq!(header.compression_method, CompressionMethod::Deflate);
    assert_eq!(header.filter_method, FilterMethod::Adaptive);
    assert_eq!(header.interlace_method, InterlaceMethod::Adam7);
}

#[test]
fn header_with_a_zero_dimension_is_refused() {
    let e = read_header(&payload(0, 10, [8, 0, 0, 0, 0])).err().unwrap();
    assert!(matches!(e, EncoderError::InvalidImageDimensions(_)));
    assert_eq!(e.message(), "Width or height is 0");
    let e = read_header(&payload(10, 0, [8, 0, 0, 0, 0])).err().unwrap();
    assert!(matches!(e, EncoderError::InvalidImageDimensions(_)));
    // The dimensions are checked before anything else.
    let e = read_header(&payload(0, 0, [3, 9, 9, 9, 9])).err().unwrap();
    assert_eq!(e.message(), "Width or height is 0");
}

#[test]
fn header_checks_come_in_order() {
    let e = read_header(&payload(1, 1, [3, 9, 9, 9, 9])).err().unwrap();
    assert_eq!(e.message(), "Invalid bit depth: 3");
    let e = read_header(&payload(1, 1, [8, 9, 9, 9, 9])).err().unwrap();
    assert_eq!(e.message(), "Invalid color type: 9");
    let e = read_header(&payload(1, 1, [16, 3, 9, 9, 9])).err().unwrap();
    assert_eq!(e.message(), "Invalid bit depth: 16 for color type: 3");
    let e = read_header(&payload(1, 1, [8, 3, 9, 8, 7])).err().unwrap();
    assert_eq!(e.message(), "Invalid compression method: 9");
    let e = read_header(&payload(1, 1, [8, 3, 0, 8, 7])).err().unwrap();
    assert_eq!(e.message(), "Invalid filter method: 8");
    let e = read_header(&payload(1, 1, [8, 3, 0, 0, 7])).err().unwrap();
    assert_eq!(e.message(), "Invalid interlace method: 7");
    assert!(read_header(&payload(1, 1, [8, 3, 0, 0, 0])).is_ok());
}

#[test]
fn header_that_is_too_short_is_refused() {
    let mut bytes = payload(1, 1, [8, 0, 0, 0, 0]);
    bytes.pop();
    let e = read_header(&bytes).err().unwrap();
    assert!(matches!(e, EncoderError::InvalidData(_)));
    assert_eq!(e.message(), "IHDR chunk is too small");
    assert_eq!(read_header(&[]).err().unwrap().message(), "IHDR chunk is too small");
}

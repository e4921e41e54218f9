use png_decoder::encoders::EncoderError;
use png_decoder::png::scanline::{compose_pixel, read_sample, sample_at, scale_sample};
use png_decoder::png::{scanline_to_pixels_data, BitDepth, ColorType};
use png_decoder::PixelData;

#[test]
fn samples_are_packed_from_the_most_significant_bit_down() {
    let line = [0b1011_0001u8, 0b0110_1100];
    let ones: Vec<u16> = (0..16).map(|k| sample_at(&line, &BitDepth::One, k)).collect();
    assert_eq!(ones, vec![1, 0, 1, 1, 0, 0, 0, 1, 0, 1, 1, 0, 1, 1, 0, 0]);
    let twos: Vec<u16> = (0..8).map(|k| sample_at(&line, &BitDepth::Two, k)).collect();
    assert_eq!(twos, vec![2, 3, 0, 1, 1, 2, 3, 0]);
    let fours: Vec<u16> = (0..4).map(|k| sample_at(&line, &BitDepth::Four, k)).collect();
    assert_eq!(fours, vec![11, 1, 6, 12]);
    let eights: Vec<u16> = (0..2).map(|k| sample_at(&line, &BitDepth::Eight, k)).collect();
    assert_eq!(eights, vec![0xB1, 0x6C]);
    assert_eq!(sample_at(&line, &BitDepth::Sixteen, 0), 0xB16C);
    assert_eq!(sample_at(&[0x12, 0x34, 0xAB, 0xCD], &BitDepth::Sixteen, 1), 0xABCD);
}

#[test]
fn samples_beyond_the_line_are_zero() {
    let line = [0xFFu8];
    assert_eq!(sample_at(&line, &BitDepth::One, 8), 0);
    assert_eq!(sample_at(&line, &BitDepth::Two, 4), 0);
    assert_eq!(sample_at(&line, &BitDepth::Four, 2), 0);
    assert_eq!(sample_at(&line, &BitDepth::Eight, 1), 0);
    assert_eq!(sample_at(&line, &BitDepth::Sixteen, 0), 0xFF00);
    assert_eq!(sample_at(&line, &BitDepth::Sixteen, 1), 0);
    assert_eq!(sample_at(&line, &BitDepth::Sixteen, usize::MAX), 0);
    assert_eq!(read_sample(&line, &BitDepth::Sixteen, u64::MAX), 0);
    assert_eq!(read_sample(&line, &BitDepth::One, u64::MAX), 0);
    assert_eq!(read_sample(&line, &BitDepth::One, 7), 1);
}

#[test]
fn samples_are_scaled_to_sixteen_bits() {
    assert_eq!(scale_sample(0, &BitDepth::One), 0);
    assert_eq!(scale_sample(1, &BitDepth::One), 65535);
    assert_eq!(scale_sample(0, &BitDepth::Two), 0);
    assert_eq!(scale_sample(1, &BitDepth::Two), 21845);
    assert_eq!(scale_sample(2, &BitDepth::Two), 43690);
    assert_eq!(scale_sample(3, &BitDepth::Two), 65535);
    assert_eq!(scale_sample(1, &BitDepth::Four), 4369);
    assert_eq!(scale_sample(7, &BitDepth::Four), 30583);
    assert_eq!(scale_sample(15, &BitDepth::Four), 65535);
    assert_eq!(scale_sample(1, &BitDepth::Eight), 257);
    assert_eq!(scale_sample(128, &BitDepth::Eight), 32896);
    assert_eq!(scale_sample(255, &BitDepth::Eight), 65535);
    assert_eq!(scale_sample(12345, &BitDepth::Sixteen), 12345);
    assert_eq!(scale_sample(65535, &BitDepth::Sixteen), 65535);
    for (depth, max) in [(BitDepth::One, 1u32), (BitDepth::Two, 3), (BitDepth::Four, 15), (BitDepth::Eight, 255), (BitDepth::Sixteen, 65535)] {
        for value in 0..=max.min(300) {
            assert_eq!(scale_sample(value as u16, &depth) as u32, value * 65535 / max);
        }
    }
}

#[test]
fn a_bitmap_line_is_black_and_white() {
    let pixels = scanline_to_pixels_data(
        &[0b1010_0000, 0b1000_0000],
        9,
        &ColorType::Grayscale,
        &BitDepth::One,
        &[],
        &[],
    )
    .unwrap();
    let w = PixelData::white();
    let b = PixelData::black();
    assert_eq!(pixels, vec![w, b, w, b, b, b, b, b, w]);
    assert_eq!(w.rgba(), (65535, 65535, 65535, 65535));
    assert_eq!(b.rgba(), (0, 0, 0, 65535));
    assert_eq!(PixelData::new(1, 2, 3, 4).rgba(), (1, 2, 3, 4));
}

#[test]
fn grayscale_pixels() {
    let pixel = compose_pixel(&ColorType::Grayscale, &BitDepth::Eight, &[], &[], &[7, 128], 1).unwrap();
    assert_eq!(pixel, PixelData { r: 32896, g: 32896, b: 32896, a: 65535 });
    // The transparency chunk names the sample's value, not the scaled one.
    let pixel = compose_pixel(&ColorType::Grayscale, &BitDepth::Eight, &[], &[0, 128], &[7, 128], 1).unwrap();
    assert_eq!(pixel, PixelData { r: 32896, g: 32896, b: 32896, a: 0 });
    let pixel = compose_pixel(&ColorType::Grayscale, &BitDepth::Eight, &[], &[0, 128], &[7, 128], 0).unwrap();
    assert_eq!(pixel, PixelData { r: 1799, g: 1799, b: 1799, a: 65535 });
    // A transparency chunk of one byte names nothing.
    let pixel = compose_pixel(&ColorType::Grayscale, &BitDepth::Eight, &[], &[0], &[0], 0).unwrap();
    assert_eq!(pixel.a, 65535);
    let pixel = compose_pixel(&ColorType::Grayscale, &BitDepth::Sixteen, &[], &[0x12, 0x34], &[0x12, 0x34], 0).unwrap();
    assert_eq!(pixel, PixelData { r: 0x1234, g: 0x1234, b: 0x1234, a: 0 });
    let pixel = compose_pixel(&ColorType::Grayscale, &BitDepth::Two, &[], &[0, 2], &[0b0110_0000], 1).unwrap();
    assert_eq!(pixel, PixelData { r: 43690, g: 43690, b: 43690, a: 0 });
}

#[test]
fn grayscale_pixels_with_alpha() {
    let line = [10u8, 255, 200, 0];
    let pixel = compose_pixel(&ColorType::GrayscaleAlpha, &BitDepth::Eight, &[], &[0, 200], &line, 0).unwrap();
    assert_eq!(pixel, PixelData { r: 2570, g: 2570, b: 2570, a: 65535 });
    let pixel = compose_pixel(&ColorType::GrayscaleAlpha, &BitDepth::Eight, &[], &[0, 200], &line, 1).unwrap();
    assert_eq!(pixel, PixelData { r: 51400, g: 51400, b: 51400, a: 0 });
    let pixel = compose_pixel(&ColorType::GrayscaleAlpha, &BitDepth::Sixteen, &[], &[], &line, 0).unwrap();
    assert_eq!(pixel, PixelData { r: 0x0AFF, g: 0x0AFF, b: 0x0AFF, a: 0xC800 });
}

#[test]
fn truecolour_pixels() {
    let line = [1u8, 2, 3, 4, 5, 6];
    let pixel = compose_pixel(&ColorType::Truecolor, &BitDepth::Eight, &[], &[], &line, 1).unwrap();
    assert_eq!(pixel, PixelData { r: 4 * 257, g: 5 * 257, b: 6 * 257, a: 65535 });
    let pixel = compose_pixel(&ColorType::Truecolor, &BitDepth::Eight, &[], &[0, 4, 0, 5, 0, 6], &line, 1).unwrap();
    assert_eq!(pixel, PixelData { r: 4 * 257, g: 5 * 257, b: 6 * 257, a: 0 });
    let pixel = compose_pixel(&ColorType::Truecolor, &BitDepth::Eight, &[], &[0, 4, 0, 5, 0, 6], &line, 0).unwrap();
    assert_eq!(pixel, PixelData { r: 257, g: 2 * 257, b: 3 * 257, a: 65535 });
    // Five bytes name no colour.
    let pixel = compose_pixel(&ColorType::Truecolor, &BitDepth::Eight, &[], &[0, 4, 0, 5, 0], &line, 1).unwrap();
    assert_eq!(pixel.a, 65535);
    let pixel = compose_pixel(&ColorType::Truecolor, &BitDepth::Sixteen, &[], &[], &line, 0).unwrap();
    assert_eq!(pixel, PixelData { r: 0x0102, g: 0x0304, b: 0x0506, a: 65535 });
    let pixel = compose_pixel(&ColorType::Truecolor, &BitDepth::Sixteen, &[], &[1, 2, 3, 4, 5, 6], &line, 0).unwrap();
    assert_eq!(pixel.a, 0);
}

#[test]
fn truecolour_pixels_with_alpha() {
    let line = [1u8, 2, 3, 4, 5, 6, 7, 8];
    let pixel = compose_pixel(&ColorType::TruecolorAlpha, &BitDepth::Eight, &[], &[0, 5, 0, 6, 0, 7], &line, 1).unwrap();
    assert_eq!(pixel, PixelData { r: 5 * 257, g: 6 * 257, b: 7 * 257, a: 8 * 257 });
    let pixel = compose_pixel(&ColorType::TruecolorAlpha, &BitDepth::Sixteen, &[], &[], &line, 0).unwrap();
    assert_eq!(pixel, PixelData { r: 0x0102, g: 0x0304, b: 0x0506, a: 0x0708 });
}

#[test]
fn indexed_pixels() {
    let palette = [10u8, 20, 30, 40, 50, 60, 255, 0, 128];
    let line = [0b0110_0000u8];
    let pixel = compose_pixel(&ColorType::IndexedColor, &BitDepth::Two, &palette, &[], &line, 0).unwrap();
    assert_eq!(pixel, PixelData { r: 40 * 257, g: 50 * 257, b: 60 * 257, a: 65535 });
    let pixel = compose_pixel(&ColorType::IndexedColor, &BitDepth::Two, &palette, &[9, 100], &line, 0).unwrap();
    assert_eq!(pixel, PixelData { r: 40 * 257, g: 50 * 257, b: 60 * 257, a: 100 * 257 });
    let pixel = compose_pixel(&ColorType::IndexedColor, &BitDepth::Two, &palette, &[9, 100], &line, 1).unwrap();
    assert_eq!(pixel, PixelData { r: 65535, g: 0, b: 128 * 257, a: 65535 });
    let pixel = compose_pixel(&ColorType::IndexedColor, &BitDepth::Two, &palette, &[0], &line, 2).unwrap();
    assert_eq!(pixel, PixelData { r: 2570, g: 5140, b: 7710, a: 0 });
}

#[test]
fn an_index_beyond_the_palette_is_refused() {
    let palette = [10u8, 20, 30, 40, 50, 60];
    let e = compose_pixel(&ColorType::IndexedColor, &BitDepth::Eight, &palette, &[], &[2], 0).err().unwrap();
    assert!(matches!(e, EncoderError::InvalidData(_)));
    assert_eq!(e.message(), "Palette index out of bounds");
    assert!(compose_pixel(&ColorType::IndexedColor, &BitDepth::Eight, &palette, &[], &[1], 0).is_ok());
    // Bytes that do not make a whole entry are no entry.
    assert!(compose_pixel(&ColorType::IndexedColor, &BitDepth::Eight, &palette[..5], &[], &[1], 0).is_err());
    assert!(compose_pixel(&ColorType::IndexedColor, &BitDepth::Eight, &palette[..5], &[], &[0], 0).is_ok());
    assert!(compose_pixel(&ColorType::IndexedColor, &BitDepth::Eight, &[], &[], &[0], 0).is_err());
    let e = scanline_to_pixels_data(&[0, 1, 2, 0], 4, &ColorType::IndexedColor, &BitDepth::Eight, &palette, &[])
        .err()
        .unwrap();
    assert_eq!(e.message(), "Palette index out of bounds");
    // Only the first `width` pixels are looked at.
    let row = scanline_to_pixels_data(&[0, 1, 2, 0], 2, &ColorType::IndexedColor, &BitDepth::Eight, &palette, &[]).unwrap();
    assert_eq!(row.len(), 2);
}

#[test]
fn a_line_of_no_pixels() {
    let row = scanline_to_pixels_data(&[], 0, &ColorType::Truecolor, &BitDepth::Eight, &[], &[]).unwrap();
    assert_eq!(row, Vec::<PixelData>::new());
}

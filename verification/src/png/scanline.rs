//! From the bytes of a reconstructed scanline to pixels: the width of a
//! scanline, the samples packed in it, and the pixel that samples make.

use vstd::prelude::*;
use crate::bytes::{be16, u8_to_u16};
use crate::encoders::{viewed, EncoderError, Failure};
use crate::pixel::PixelData;
use crate::png::header::{BitDepth, ColorType};

verus! {

/// The number of bytes that `width` pixels of `bits_per_pixel` bits fill: the
/// bits, rounded up to whole bytes.
pub open spec fn scanline_bytes(width: int, bits_per_pixel: int) -> int {
    (width * bits_per_pixel + 7) / 8
}

/// The number of bytes from a pixel to the next: the bytes of a pixel rounded
/// up, one at least.
pub open spec fn pixel_stride(bits_per_pixel: int) -> int {
    if (bits_per_pixel + 7) / 8 < 1 {
        1
    } else {
        (bits_per_pixel + 7) / 8
    }
}

/// The number of data bytes in a scanline of `width` pixels.
pub fn bytes_per_scanline(width: u32, color_type: &ColorType, bit_depth: &BitDepth) -> (bytes: u64)
    ensures
        bytes == scanline_bytes(width as int, color_type.channels() * bit_depth.bits()),
        bytes <= 0x8_0000_0000,
{
    let bits_per_pixel: u64 = color_type.channel_count() as u64 * bit_depth.value() as u64;
    assert(bits_per_pixel == color_type.channels() * bit_depth.bits());
    assert(bits_per_pixel <= 64);
    assert(width * bits_per_pixel <= 0xFFFF_FFFF * 64) by (nonlinear_arith)
        requires
            width <= 0xFFFF_FFFF,
            bits_per_pixel <= 64,
    ;
    let bits_per_scanline: u64 = width as u64 * bits_per_pixel;
    let bytes_per_scanline: u64 = bits_per_scanline / 8;
    if bits_per_scanline % 8 != 0 {
        bytes_per_scanline + 1
    } else {
        bytes_per_scanline
    }
}

/// The number of bytes from a pixel to the next.
pub fn bytes_per_pixel(color_type: &ColorType, bit_depth: &BitDepth) -> (bytes: usize)
    ensures
        bytes == pixel_stride(color_type.channels() * bit_depth.bits()),
        1 <= bytes <= 8,
{
    let bits_per_pixel: usize = color_type.channel_count() as usize * bit_depth.value() as usize;
    assert(bits_per_pixel == color_type.channels() * bit_depth.bits());
    if bits_per_pixel < 8 {
        1
    } else {
        (bits_per_pixel + 7) / 8
    }
}

/// Two to the power `n`, for `n` up to eight.
pub open spec fn two_to(n: int) -> int {
    if n <= 0 {
        1
    } else if n == 1 {
        2
    } else if n == 2 {
        4
    } else if n == 3 {
        8
    } else if n == 4 {
        16
    } else if n == 5 {
        32
    } else if n == 6 {
        64
    } else if n == 7 {
        128
    } else {
        256
    }
}

/// The byte at `at`; zero where the line has none.
pub open spec fn byte_at(line: Seq<u8>, at: int) -> int {
    if 0 <= at < line.len() {
        line[at] as int
    } else {
        0
    }
}

/// The sample with number `k` of a scanline. Below eight bits the samples are
/// packed from the most significant bits of each byte down; sixteen bits are
/// two bytes, the more significant first.
pub open spec fn sample(line: Seq<u8>, bit_depth: BitDepth, k: int) -> int {
    match bit_depth {
        BitDepth::One => (byte_at(line, k / 8) / two_to(7 - k % 8)) % 2,
        BitDepth::Two => (byte_at(line, k / 4) / two_to(6 - 2 * (k % 4))) % 4,
        BitDepth::Four => (byte_at(line, k / 2) / two_to(4 - 4 * (k % 2))) % 16,
        BitDepth::Eight => byte_at(line, k),
        BitDepth::Sixteen => byte_at(line, 2 * k) * 256 + byte_at(line, 2 * k + 1),
    }
}

/// A byte is the sum of its eight bits, of its four pairs of bits, and of its
/// two halves, each at its place.
proof fn lemma_parts_of_a_byte(byte: u8)
    by (bit_vector)
    ensures
        byte == 128 * ((byte / 128) % 2) + 64 * ((byte / 64) % 2) + 32 * ((byte / 32) % 2) + 16 * ((
        byte / 16) % 2) + 8 * ((byte / 8) % 2) + 4 * ((byte / 4) % 2) + 2 * ((byte / 2) % 2) + (byte
            / 1) % 2,
        byte == 64 * ((byte / 64) % 4) + 16 * ((byte / 16) % 4) + 4 * ((byte / 4) % 4) + (byte / 1)
            % 4,
        byte == 16 * ((byte / 16) % 16) + (byte / 1) % 16,
{
}

/// The eight samples of one bit that a byte holds make the byte: the first
/// sample is its most significant bit.
pub proof fn lemma_bits_make_the_byte(line: Seq<u8>, at: int)
    requires
        0 <= at < line.len(),
    ensures
        line[at] == 128 * sample(line, BitDepth::One, 8 * at) + 64 * sample(
            line,
            BitDepth::One,
            8 * at + 1,
        ) + 32 * sample(line, BitDepth::One, 8 * at + 2) + 16 * sample(
            line,
            BitDepth::One,
            8 * at + 3,
        ) + 8 * sample(line, BitDepth::One, 8 * at + 4) + 4 * sample(
            line,
            BitDepth::One,
            8 * at + 5,
        ) + 2 * sample(line, BitDepth::One, 8 * at + 6) + sample(line, BitDepth::One, 8 * at + 7),
{
    let byte = line[at];
    lemma_parts_of_a_byte(byte);
    assert(sample(line, BitDepth::One, 8 * at) == (byte as int / 128) % 2) by {
        assert((8 * at) / 8 == at && (8 * at) % 8 == 0);
    }
    assert(sample(line, BitDepth::One, 8 * at + 1) == (byte as int / 64) % 2) by {
        assert((8 * at + 1) / 8 == at && (8 * at + 1) % 8 == 1);
    }
    assert(sample(line, BitDepth::One, 8 * at + 2) == (byte as int / 32) % 2) by {
        assert((8 * at + 2) / 8 == at && (8 * at + 2) % 8 == 2);
    }
    assert(sample(line, BitDepth::One, 8 * at + 3) == (byte as int / 16) % 2) by {
        assert((8 * at + 3) / 8 == at && (8 * at + 3) % 8 == 3);
    }
    assert(sample(line, BitDepth::One, 8 * at + 4) == (byte as int / 8) % 2) by {
        assert((8 * at + 4) / 8 == at && (8 * at + 4) % 8 == 4);
    }
    assert(sample(line, BitDepth::One, 8 * at + 5) == (byte as int / 4) % 2) by {
        assert((8 * at + 5) / 8 == at && (8 * at + 5) % 8 == 5);
    }
    assert(sample(line, BitDepth::One, 8 * at + 6) == (byte as int / 2) % 2) by {
        assert((8 * at + 6) / 8 == at && (8 * at + 6) % 8 == 6);
    }
    assert(sample(line, BitDepth::One, 8 * at + 7) == (byte as int / 1) % 2) by {
        assert((8 * at + 7) / 8 == at && (8 * at + 7) % 8 == 7);
    }
}

/// The four samples of two bits that a byte holds make the byte: the first
/// sample holds its most significant bits.
pub proof fn lemma_pairs_make_the_byte(line: Seq<u8>, at: int)
    requires
        0 <= at < line.len(),
    ensures
        line[at] == 64 * sample(line, BitDepth::Two, 4 * at) + 16 * sample(
            line,
            BitDepth::Two,
            4 * at + 1,
        ) + 4 * sample(line, BitDepth::Two, 4 * at + 2) + sample(line, BitDepth::Two, 4 * at + 3),
{
    let byte = line[at];
    lemma_parts_of_a_byte(byte);
    assert(sample(line, BitDepth::Two, 4 * at) == (byte as int / 64) % 4) by {
        assert((4 * at) / 4 == at && (4 * at) % 4 == 0);
    }
    assert(sample(line, BitDepth::Two, 4 * at + 1) == (byte as int / 16) % 4) by {
        assert((4 * at + 1) / 4 == at && (4 * at + 1) % 4 == 1);
    }
    assert(sample(line, BitDepth::Two, 4 * at + 2) == (byte as int / 4) % 4) by {
        assert((4 * at + 2) / 4 == at && (4 * at + 2) % 4 == 2);
    }
    assert(sample(line, BitDepth::Two, 4 * at + 3) == (byte as int / 1) % 4) by {
        assert((4 * at + 3) / 4 == at && (4 * at + 3) % 4 == 3);
    }
}

/// The two samples of four bits that a byte holds make the byte: the first
/// sample holds its most significant bits.
pub proof fn lemma_halves_make_the_byte(line: Seq<u8>, at: int)
    requires
        0 <= at < line.len(),
    ensures
        line[at] == 16 * sample(line, BitDepth::Four, 2 * at) + sample(
            line,
            BitDepth::Four,
            2 * at + 1,
        ),
{
    let byte = line[at];
    lemma_parts_of_a_byte(byte);
    assert(sample(line, BitDepth::Four, 2 * at) == (byte as int / 16) % 16) by {
        assert((2 * at) / 2 == at && (2 * at) % 2 == 0);
    }
    assert(sample(line, BitDepth::Four, 2 * at + 1) == (byte as int / 1) % 16) by {
        assert((2 * at + 1) / 2 == at && (2 * at + 1) % 2 == 1);
    }
}

/// A sample brought to the 16-bit range: zero stays zero, the largest value
/// of the bit depth becomes 65535.
pub open spec fn scaled(value: int, bit_depth: BitDepth) -> int {
    value * 65535 / bit_depth.max_sample()
}

/// Scaling keeps the order of the samples and fills the 16-bit range: zero
/// stays zero and the largest value of the bit depth becomes 65535.
pub proof fn lemma_scaled_fills_the_range(lower: int, higher: int, bit_depth: BitDepth)
    requires
        0 <= lower <= higher <= bit_depth.max_sample(),
    ensures
        scaled(0, bit_depth) == 0,
        scaled(bit_depth.max_sample(), bit_depth) == 65535,
        0 <= scaled(lower, bit_depth) <= scaled(higher, bit_depth) <= 65535,
        lower < higher ==> scaled(lower, bit_depth) < scaled(higher, bit_depth),
{
}

fn power_of_two(n: u8) -> (power: u8)
    requires
        n <= 7,
    ensures
        power == two_to(n as int),
{
    if n == 0 {
        1
    } else if n == 1 {
        2
    } else if n == 2 {
        4
    } else if n == 3 {
        8
    } else if n == 4 {
        16
    } else if n == 5 {
        32
    } else if n == 6 {
        64
    } else {
        128
    }
}

fn byte_or_zero(line: &[u8], at: u64) -> (byte: u8)
    ensures
        byte == byte_at(line@, at as int),
{
    if at < line.len() as u64 {
        line[at as usize]
    } else {
        0
    }
}

/// Reads the sample with number `k` from a scanline, where `k` may be any
/// number of 64 bits. A sample whose bytes the line does not hold reads as if
/// they were zero.
pub fn read_sample(line: &[u8], bit_depth: &BitDepth, k: u64) -> (value: u16)
    ensures
        value == sample(line@, *bit_depth, k as int),
        value <= bit_depth.max_sample(),
{
    match bit_depth {
        BitDepth::One => {
            let place: u8 = (k % 8) as u8;
            let byte: u8 = byte_or_zero(line, k / 8);
            let value: u8 = (byte / power_of_two(7 - place)) % 2;
            value as u16
        },
        BitDepth::Two => {
            let place: u8 = (k % 4) as u8;
            let byte: u8 = byte_or_zero(line, k / 4);
            let value: u8 = (byte / power_of_two(6 - 2 * place)) % 4;
            value as u16
        },
        BitDepth::Four => {
            let place: u8 = (k % 2) as u8;
            let byte: u8 = byte_or_zero(line, k / 2);
            let value: u8 = (byte / power_of_two(4 - 4 * place)) % 16;
            value as u16
        },
        BitDepth::Eight => byte_or_zero(line, k) as u16,
        BitDepth::Sixteen => {
            if k <= (u64::MAX - 1) / 2 {
                u8_to_u16(byte_or_zero(line, 2 * k), byte_or_zero(line, 2 * k + 1))
            } else {
                // Two bytes this far out lie beyond every line.
                let length: usize = line.len();
                assert(2 * k >= length);
                0
            }
        },
    }
}

/// Reads the sample with number `k` from a scanline. A sample whose bytes the
/// line does not hold reads as if they were zero.
pub fn sample_at(line: &[u8], bit_depth: &BitDepth, k: usize) -> (value: u16)
    ensures
        value == sample(line@, *bit_depth, k as int),
        value <= bit_depth.max_sample(),
{
    read_sample(line, bit_depth, k as u64)
}

/// Brings a sample to the 16-bit range.
pub fn scale_sample(value: u16, bit_depth: &BitDepth) -> (wide: u16)
    requires
        value <= bit_depth.max_sample(),
    ensures
        wide == scaled(value as int, *bit_depth),
{
    match bit_depth {
        BitDepth::One => value * 65535,
        BitDepth::Two => value * 21845,
        BitDepth::Four => value * 4369,
        BitDepth::Eight => value * 257,
        BitDepth::Sixteen => value,
    }
}

/// The failure for a pixel that names a palette entry that there is not.
pub open spec fn palette_index_out_of_bounds() -> Failure {
    Failure::InvalidData("Palette index out of bounds"@)
}

/// The alpha of a grayscale pixel: clear where the transparency chunk names
/// the sample's value in its first two bytes, opaque elsewhere.
pub open spec fn gray_alpha(transparency: Seq<u8>, value: int) -> u16 {
    if transparency.len() >= 2 && value == be16(transparency[0], transparency[1]) {
        0
    } else {
        65535
    }
}

/// The alpha of a truecolour pixel: clear where the transparency chunk names
/// the three samples' values in its first six bytes, opaque elsewhere.
pub open spec fn rgb_alpha(transparency: Seq<u8>, r: int, g: int, b: int) -> u16 {
    if transparency.len() >= 6 && r == be16(transparency[0], transparency[1]) && g == be16(
        transparency[2],
        transparency[3],
    ) && b == be16(transparency[4], transparency[5]) {
        0
    } else {
        65535
    }
}

/// The alpha of a palette entry: the byte that the transparency chunk holds
/// for the index, brought to the 16-bit range; opaque where it holds none.
pub open spec fn index_alpha(transparency: Seq<u8>, index: int) -> u16 {
    if 0 <= index < transparency.len() {
        (transparency[index] * 257) as u16
    } else {
        65535
    }
}

/// The pixel with number `j` of a scanline.
///
/// Grayscale spreads its one sample over red, green and blue. Truecolour takes
/// three samples. With alpha, one sample more gives the alpha; without, the
/// pixel is opaque unless the transparency chunk names its samples. An indexed
/// pixel takes the three bytes of its palette entry, each times 257, and fails
/// where the palette has no such entry.
pub open spec fn pixel_of(
    color_type: ColorType,
    bit_depth: BitDepth,
    palette: Seq<u8>,
    transparency: Seq<u8>,
    line: Seq<u8>,
    j: int,
) -> Result<PixelData, Failure> {
    match color_type {
        ColorType::Grayscale => {
            let value = sample(line, bit_depth, j);
            let gray = scaled(value, bit_depth) as u16;
            Ok(PixelData { r: gray, g: gray, b: gray, a: gray_alpha(transparency, value) })
        },
        ColorType::GrayscaleAlpha => {
            let gray = scaled(sample(line, bit_depth, 2 * j), bit_depth) as u16;
            let alpha = scaled(sample(line, bit_depth, 2 * j + 1), bit_depth) as u16;
            Ok(PixelData { r: gray, g: gray, b: gray, a: alpha })
        },
        ColorType::Truecolor => {
            let r = sample(line, bit_depth, 3 * j);
            let g = sample(line, bit_depth, 3 * j + 1);
            let b = sample(line, bit_depth, 3 * j + 2);
            Ok(
                PixelData {
                    r: scaled(r, bit_depth) as u16,
                    g: scaled(g, bit_depth) as u16,
                    b: scaled(b, bit_depth) as u16,
                    a: rgb_alpha(transparency, r, g, b),
                },
            )
        },
        ColorType::TruecolorAlpha => Ok(
            PixelData {
                r: scaled(sample(line, bit_depth, 4 * j), bit_depth) as u16,
                g: scaled(sample(line, bit_depth, 4 * j + 1), bit_depth) as u16,
                b: scaled(sample(line, bit_depth, 4 * j + 2), bit_depth) as u16,
                a: scaled(sample(line, bit_depth, 4 * j + 3), bit_depth) as u16,
            },
        ),
        ColorType::IndexedColor => {
            let index = sample(line, bit_depth, j);
            if 3 * index + 2 >= palette.len() {
                Err(palette_index_out_of_bounds())
            } else {
                Ok(
                    PixelData {
                        r: (palette[3 * index] * 257) as u16,
                        g: (palette[3 * index + 1] * 257) as u16,
                        b: (palette[3 * index + 2] * 257) as u16,
                        a: index_alpha(transparency, index),
                    },
                )
            }
        },
    }
}

/// The first `width` pixels of a scanline have a colour each.
pub open spec fn row_has_colours(
    color_type: ColorType,
    bit_depth: BitDepth,
    palette: Seq<u8>,
    transparency: Seq<u8>,
    line: Seq<u8>,
    width: int,
) -> bool {
    forall|j: int|
        0 <= j < width ==> (#[trigger] pixel_of(
            color_type,
            bit_depth,
            palette,
            transparency,
            line,
            j,
        )) is Ok
}

/// The first `width` pixels of a scanline, or the failure if one of them names
/// a palette entry that there is not.
pub open spec fn row_of_pixels(
    color_type: ColorType,
    bit_depth: BitDepth,
    palette: Seq<u8>,
    transparency: Seq<u8>,
    line: Seq<u8>,
    width: int,
) -> Result<Seq<PixelData>, Failure> {
    if row_has_colours(color_type, bit_depth, palette, transparency, line, width) {
        Ok(
            Seq::new(
                width as nat,
                |j: int| pixel_of(color_type, bit_depth, palette, transparency, line, j)->Ok_0,
            ),
        )
    } else {
        Err(palette_index_out_of_bounds())
    }
}

/// Composes the pixel with number `j` of a scanline.
pub fn compose_pixel(
    color_type: &ColorType,
    bit_depth: &BitDepth,
    palette: &[u8],
    transparency: &[u8],
    line: &[u8],
    j: u32,
) -> (pixel: Result<PixelData, EncoderError>)
    ensures
        match pixel {
            Ok(p) => pixel_of(*color_type, *bit_depth, palette@, transparency@, line@, j as int)
                == Ok::<PixelData, Failure>(p),
            Err(e) => pixel_of(*color_type, *bit_depth, palette@, transparency@, line@, j as int)
                == Err::<PixelData, Failure>(e@),
        },
{
    let channels: u64 = color_type.channel_count() as u64;
    assert(j * channels <= 0xFFFF_FFFF * 4) by (nonlinear_arith)
        requires
            j <= 0xFFFF_FFFF,
            channels <= 4,
    ;
    let first: u64 = j as u64 * channels;
    match color_type {
        ColorType::Grayscale => {
            let value = read_sample(line, bit_depth, first);
            let gray = scale_sample(value, bit_depth);
            let alpha: u16 = if transparency.len() >= 2 && value == u8_to_u16(
                transparency[0],
                transparency[1],
            ) {
                0
            } else {
                65535
            };
            Ok(PixelData::new(gray, gray, gray, alpha))
        },
        ColorType::GrayscaleAlpha => {
            let gray = scale_sample(read_sample(line, bit_depth, first), bit_depth);
            let alpha = scale_sample(read_sample(line, bit_depth, first + 1), bit_depth);
            Ok(PixelData::new(gray, gray, gray, alpha))
        },
        ColorType::Truecolor => {
            let r = read_sample(line, bit_depth, first);
            let g = read_sample(line, bit_depth, first + 1);
            let b = read_sample(line, bit_depth, first + 2);
            let alpha: u16 = if transparency.len() >= 6 && r == u8_to_u16(
                transparency[0],
                transparency[1],
            ) && g == u8_to_u16(transparency[2], transparency[3]) && b == u8_to_u16(
                transparency[4],
                transparency[5],
            ) {
                0
            } else {
                65535
            };
            Ok(
                PixelData::new(
                    scale_sample(r, bit_depth),
                    scale_sample(g, bit_depth),
                    scale_sample(b, bit_depth),
                    alpha,
                ),
            )
        },
        ColorType::TruecolorAlpha => Ok(
            PixelData::new(
                scale_sample(read_sample(line, bit_depth, first), bit_depth),
                scale_sample(read_sample(line, bit_depth, first + 1), bit_depth),
                scale_sample(read_sample(line, bit_depth, first + 2), bit_depth),
                scale_sample(read_sample(line, bit_depth, first + 3), bit_depth),
            ),
        ),
        ColorType::IndexedColor => {
            let index = read_sample(line, bit_depth, first) as usize;
            if palette.len() < 3 || index > (palette.len() - 3) / 3 {
                return Err(EncoderError::invalid_data("Palette index out of bounds"));
            }
            let alpha: u16 = if index < transparency.len() {
                transparency[index] as u16 * 257
            } else {
                65535
            };
            Ok(
                PixelData::new(
                    palette[3 * index] as u16 * 257,
                    palette[3 * index + 1] as u16 * 257,
                    palette[3 * index + 2] as u16 * 257,
                    alpha,
                ),
            )
        },
    }
}

/// Composes the first `width` pixels of a reconstructed scanline.
pub fn scanline_to_pixels_data(
    scanline: &[u8],
    width: u32,
    color_type: &ColorType,
    bit_depth: &BitDepth,
    palette: &[u8],
    transparency: &[u8],
) -> (pixels: Result<Vec<PixelData>, EncoderError>)
    ensures
        viewed(pixels) == row_of_pixels(
            *color_type,
            *bit_depth,
            palette@,
            transparency@,
            scanline@,
            width as int,
        ),
{
    let mut pixels: Vec<PixelData> = Vec::new();
    let mut j: u32 = 0;
    while j < width
        invariant
            j <= width,
            pixels@.len() == j,
            forall|k: int|
                0 <= k < j ==> (#[trigger] pixel_of(
                    *color_type,
                    *bit_depth,
                    palette@,
                    transparency@,
                    scanline@,
                    k,
                )) == Ok::<PixelData, Failure>(pixels@[k]),
        decreases width - j,
    {
        let pixel = match compose_pixel(color_type, bit_depth, palette, transparency, scanline, j) {
            Ok(pixel) => pixel,
            Err(e) => {
                assert(pixel_of(
                    *color_type,
                    *bit_depth,
                    palette@,
                    transparency@,
                    scanline@,
                    j as int,
                ) is Err);
                return Err(e);
            },
        };
        pixels.push(pixel);
        j = j + 1;
    }
    assert(pixels@ =~= row_of_pixels(
        *color_type,
        *bit_depth,
        palette@,
        transparency@,
        scanline@,
        width as int,
    )->Ok_0);
    Ok(pixels)
}

} // verus!

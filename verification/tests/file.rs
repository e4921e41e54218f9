use png_decoder::encoders::EncoderError;
use png_decoder::png::inflate::InflateStatus;
use png_decoder::png::{
    BitDepth, ColorType, CompressionMethod, FilterMethod, InterlaceMethod, PngChunk, PngFile,
    PngFileMetadata,
};
use png_decoder::PixelData;

fn metadata(width: u32, height: u32, bit_depth: BitDepth, color_type: ColorType, interlace_method: InterlaceMethod) -> PngFileMetadata {
    PngFileMetadata {
        width,
        height,
        bit_depth,
        color_type,
        compression_method: CompressionMethod::Deflate,
        filter_method: FilterMethod::Adaptive,
        interlace_method,
    }
}

fn header_chunk(width: u32, height: u32) -> PngChunk {
    PngChunk::IHDR {
        width,
        height,
        bit_depth: BitDepth::Eight,
        color_type: ColorType::Grayscale,
        compression_method: CompressionMethod::Deflate,
        filter_method: FilterMethod::Adaptive,
        interlace_method: InterlaceMethod::NoInterlace,
    }
}

#[test]
fn a_file_is_put_together_from_its_chunks() {
    let stream = miniz_oxide::deflate::compress_to_vec_zlib(&[0, 1, 2, 0, 3, 4], 1);
    let (a, b) = stream.split_at(stream.len() / 2);
    let file = PngFile::new(vec![
        header_chunk(2, 2),
        PngChunk::PLTE { data: vec![1, 2, 3] },
        PngChunk::PLTE { data: vec![4, 5, 6] },
        PngChunk::TRNS { data: vec![9] },
        PngChunk::IDAT { data: a.to_vec() },
        PngChunk::Other,
        PngChunk::IDAT { data: b.to_vec() },
        PngChunk::IEND,
    ])
    .unwrap();
    assert_eq!(file.width(), 2);
    assert_eq!(file.height(), 2);
    assert_eq!(*file.bit_depth(), BitDepth::Eight);
    assert_eq!(*file.color_type(), ColorType::Grayscale);
    assert_eq!(file.palette, vec![4, 5, 6]);
    assert_eq!(file.transparency, vec![9]);
    // The data is inflated, not handed on as it came.
    assert_eq!(file.data, vec![0, 1, 2, 0, 3, 4]);
    assert_ne!(file.data, stream);
    let image = file.to_image_data().unwrap();
    let values: Vec<u16> = image.pixels.iter().map(|p| p.r / 257).collect();
    assert_eq!(values, vec![1, 2, 3, 4]);
}

#[test]
fn a_file_without_a_header_is_none() {
    let e = PngFile::new(vec![PngChunk::IDAT { data: vec![1] }, PngChunk::IEND]).err().unwrap();
    assert!(matches!(e, EncoderError::InvalidData(_)));
    assert_eq!(e.message(), "No metadata");
    let e = PngFile::new(Vec::new()).err().unwrap();
    assert_eq!(e.message(), "No metadata");
    let e = PngFile::from_parts(None, vec![], vec![], Ok(vec![])).err().unwrap();
    assert_eq!(e.message(), "No metadata");
    let e = PngFile::from_parts(None, vec![], vec![], Err(InflateStatus::Failed)).err().unwrap();
    assert_eq!(e.message(), "No metadata");
}

#[test]
fn a_file_whose_data_does_not_inflate_is_none() {
    let e = PngFile::new(vec![header_chunk(1, 1), PngChunk::IDAT { data: vec![1, 2, 3] }]).err().unwrap();
    assert!(matches!(e, EncoderError::InvalidData(_)));
    assert!(e.message().starts_with("Decompress error: "));
    let e = PngFile::new(vec![header_chunk(1, 1)]).err().unwrap();
    assert!(e.message().starts_with("Decompress error: "));
}

#[test]
fn every_inflate_status_has_its_failure() {
    let header = metadata(1, 1, BitDepth::Eight, ColorType::Grayscale, InterlaceMethod::NoInterlace);
    let cases = [
        (InflateStatus::FailedCannotMakeProgress, "Decompress error: FailedCannotMakeProgress"),
        (InflateStatus::BadParam, "Decompress error: BadParam"),
        (InflateStatus::Adler32Mismatch, "Decompress error: Adler32Mismatch"),
        (InflateStatus::Failed, "Decompress error: Failed"),
        (InflateStatus::Done, "Decompress error: Done"),
        (InflateStatus::NeedsMoreInput, "Decompress error: NeedsMoreInput"),
        (InflateStatus::HasMoreOutput, "Decompress error: HasMoreOutput"),
    ];
    for (status, message) in cases {
        let e = PngFile::from_parts(Some(header), vec![], vec![], Err(status)).err().unwrap();
        assert!(matches!(e, EncoderError::InvalidData(_)));
        assert_eq!(e.message(), message);
        assert_eq!(status.to_error().message(), message);
        assert_eq!(format!("Decompress error: {}", status.as_str()), message);
        assert_eq!(format!("{:?}", status), status.as_str());
    }
}

#[test]
fn a_file_from_its_parts_is_drawn() {
    let header = metadata(2, 1, BitDepth::Eight, ColorType::IndexedColor, InterlaceMethod::NoInterlace);
    let file = PngFile::from_parts(Some(header), vec![1, 2, 3, 4, 5, 6], vec![7], Ok(vec![0, 1, 0])).unwrap();
    assert_eq!(file.metadata.width, 2);
    assert_eq!(file.data, vec![0, 1, 0]);
    let image = file.to_image_data().unwrap();
    assert_eq!(image.width, 2);
    assert_eq!(image.height, 1);
    assert_eq!(
        image.pixels,
        vec![
            PixelData { r: 4 * 257, g: 5 * 257, b: 6 * 257, a: 65535 },
            PixelData { r: 257, g: 2 * 257, b: 3 * 257, a: 7 * 257 },
        ]
    );
}

#[test]
fn the_lines_of_a_file_are_reconstructed() {
    let header = metadata(2, 3, BitDepth::Eight, ColorType::Grayscale, InterlaceMethod::NoInterlace);
    let file = PngFile::from_parts(Some(header), vec![], vec![], Ok(vec![1, 10, 10, 2, 1, 1, 0, 5, 6])).unwrap();
    assert_eq!(file.reconstruct().unwrap(), vec![vec![vec![10, 20], vec![11, 21], vec![5, 6]]]);

    let header = metadata(2, 2, BitDepth::Eight, ColorType::Grayscale, InterlaceMethod::Adam7);
    let file = PngFile::from_parts(Some(header), vec![], vec![], Ok(vec![0, 10, 0, 20, 0, 30, 40])).unwrap();
    let none: Vec<Vec<u8>> = Vec::new();
    assert_eq!(
        file.reconstruct().unwrap(),
        vec![vec![vec![10]], none.clone(), none.clone(), none.clone(), none, vec![vec![20]], vec![vec![30, 40]]]
    );
}

#[test]
fn a_header_made_by_hand_is_drawn_as_it_stands() {
    // No image: nothing to draw, and no data asked for.
    let header = metadata(0, 3, BitDepth::Eight, ColorType::Grayscale, InterlaceMethod::NoInterlace);
    let file = PngFile::from_parts(Some(header), vec![], vec![], Ok(vec![])).unwrap();
    let image = file.to_image_data().unwrap();
    assert_eq!((image.width, image.height, image.pixels.len()), (0, 3, 0));
    let file = PngFile::from_parts(Some(header), vec![], vec![], Ok(vec![0])).unwrap();
    assert_eq!(file.to_image_data().err().unwrap().message(), "Invalid scanline length");
    // Truecolour of four bits: a pixel is twelve bits, a line of two pixels three bytes.
    let header = metadata(2, 1, BitDepth::Four, ColorType::Truecolor, InterlaceMethod::NoInterlace);
    let file = PngFile::from_parts(Some(header), vec![], vec![], Ok(vec![0, 0x12, 0x34, 0x56])).unwrap();
    let image = file.to_image_data().unwrap();
    assert_eq!(
        image.pixels,
        vec![
            PixelData { r: 4369, g: 2 * 4369, b: 3 * 4369, a: 65535 },
            PixelData { r: 4 * 4369, g: 5 * 4369, b: 6 * 4369, a: 65535 },
        ]
    );
}

#[test]
fn the_layout_of_the_passes() {
    let header = metadata(5, 5, BitDepth::One, ColorType::Grayscale, InterlaceMethod::Adam7);
    let layouts: Vec<(u32, u32, u64)> = (0..7).map(|p| header.pass_layout(p)).collect();
    assert_eq!(layouts, vec![(1, 1, 1), (1, 1, 1), (2, 1, 1), (1, 2, 1), (3, 1, 1), (2, 3, 1), (5, 2, 1)]);
    assert!(header.data_fits(2 + 2 + 2 + 4 + 2 + 6 + 4));
    assert!(!header.data_fits(21));
    assert!(!header.data_fits(0));
    let header = metadata(2, 9, BitDepth::Eight, ColorType::Truecolor, InterlaceMethod::Adam7);
    // The second pass has no column, and so no line either.
    assert_eq!(header.pass_layout(1), (0, 0, 0));
    assert_eq!(header.pass_layout(0), (1, 2, 3));
    let header = metadata(3, 2, BitDepth::Sixteen, ColorType::TruecolorAlpha, InterlaceMethod::NoInterlace);
    assert_eq!(header.pass_layout(0), (3, 2, 24));
    assert!(header.data_fits(50));
    let header = metadata(u32::MAX, u32::MAX, BitDepth::Sixteen, ColorType::TruecolorAlpha, InterlaceMethod::NoInterlace);
    assert!(!header.data_fits(usize::MAX));
}

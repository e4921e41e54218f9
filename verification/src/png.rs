//! The PNG format: from bytes to a decoded image.

pub mod adam7;
pub mod chunk;
pub mod chunk_type;
pub mod crc;
pub mod file;
pub mod filter;
pub mod header;
pub mod inflate;
pub mod order;
pub mod scanline;

use vstd::prelude::*;
use crate::encoders::{viewed, Encodable, EncoderError, Failure};
use crate::pixel::{ImageData, Picture};
use self::chunk::{
    chunk_views, interpret, raw_roles, raw_views, records, validate_raw_chunks, Chunk, RawChunk,
};
use self::file::{file_of, image_data, last_header};
use self::header::header_of;
use self::inflate::zlib_inflated;
use self::order::{lemma_order_check_sound_and_complete, order_check, well_ordered, ChunkRole};

pub use self::chunk_type::PNGChunkType;
pub use self::header::{
    BitDepth, ColorType, CompressionMethod, FilterMethod, InterlaceMethod, PngFileMetadata,
};
pub use self::chunk::{data_to_raw_chunks, validate_chunks, PngChunk, RawPngChunk};
pub use self::scanline::{bytes_per_scanline, scanline_to_pixels_data};
pub use self::file::PngFile;

verus! {

/// The PNG format.
pub struct PNG {}

/// The eight bytes that every PNG file starts with.
pub open spec fn signature() -> Seq<u8> {
    seq![0x89u8, 0x50u8, 0x4eu8, 0x47u8, 0x0du8, 0x0au8, 0x1au8, 0x0au8]
}

/// The data starts with the signature and goes on behind it.
pub open spec fn matches_format(data: Seq<u8>) -> bool {
    data.len() > 8 && data.subrange(0, 8) == signature()
}

/// The failure for data that does not start with the signature.
pub open spec fn not_png() -> Failure {
    Failure::InvalidData("Data is not in PNG format"@)
}

/// The failure that every call to encode ends in.
pub open spec fn encoding_unsupported() -> Failure {
    Failure::InvalidData("Encoding is not supported"@)
}

/// What the first `n` raw chunks say, or the failure of the first of them
/// whose payload cannot be read.
pub open spec fn interpreted(raws: Seq<RawChunk>, n: int) -> Result<Seq<Chunk>, Failure>
    decreases n,
{
    if n <= 0 {
        Ok(Seq::empty())
    } else {
        match interpreted(raws, n - 1) {
            Err(e) => Err(e),
            Ok(chunks) => match interpret(raws[n - 1]) {
                Err(e) => Err(e),
                Ok(chunk) => Ok(chunks.push(chunk)),
            },
        }
    }
}

/// The picture that a PNG file holds, or the first failure on the way to it:
/// the signature is checked, the chunks are split off, their order is
/// checked, their payloads are read, the image data is inflated, and the
/// picture is drawn from it.
pub open spec fn decoding(data: Seq<u8>) -> Result<Picture, Failure> {
    if !matches_format(data) {
        Err(not_png())
    } else {
        match records(data) {
            Err(e) => Err(e),
            Ok(raws) => match order_check(raw_roles(raws)) {
                Err(e) => Err(e),
                Ok(_) => match interpreted(raws, raws.len() as int) {
                    Err(e) => Err(e),
                    Ok(chunks) => match file_of(
                        chunks,
                        zlib_inflated(image_data(chunks, chunks.len() as int)),
                    ) {
                        Err(e) => Err(e),
                        Ok(file) => file.rendering(),
                    },
                },
            },
        }
    }
}

/// A failed interpretation of a prefix is the interpretation of every longer one.
proof fn lemma_interpretation_fails_on(raws: Seq<RawChunk>, n: int, m: int)
    requires
        0 <= n <= m,
        interpreted(raws, n) is Err,
    ensures
        interpreted(raws, m) == interpreted(raws, n),
    decreases m - n,
{
    if n < m {
        lemma_interpretation_fails_on(raws, n, m - 1);
    }
}

/// What was interpreted of the first `n` raw chunks holds for each of them
/// what it says.
proof fn lemma_interpreted_chunk_by_chunk(raws: Seq<RawChunk>, n: int)
    requires
        0 <= n <= raws.len(),
        interpreted(raws, n) is Ok,
    ensures
        interpreted(raws, n)->Ok_0.len() == n,
        forall|i: int|
            0 <= i < n ==> interpret(#[trigger] raws[i]) == Ok::<Chunk, Failure>(
                interpreted(raws, n)->Ok_0[i],
            ),
    decreases n,
{
    if n > 0 {
        lemma_interpreted_chunk_by_chunk(raws, n - 1);
    }
}

/// Where the first of `n` chunks is the only header among them, its header
/// is the last header.
proof fn lemma_only_header_is_last(chunks: Seq<Chunk>, n: int)
    requires
        1 <= n <= chunks.len(),
        chunks[0] is IHDR,
        forall|i: int| 0 < i < n ==> !(#[trigger] chunks[i] is IHDR),
    ensures
        last_header(chunks, n) == Some(chunks[0]->IHDR_0),
    decreases n,
{
    if n > 1 {
        lemma_only_header_is_last(chunks, n - 1);
    }
}

/// A picture comes only from data that starts with the signature and whose
/// chunks are framed well and stand in order; it has the width and the height
/// that the header in the first chunk gives, and a pixel for every place.
pub proof fn lemma_picture_is_that_of_the_header(data: Seq<u8>)
    requires
        decoding(data) is Ok,
    ensures
        matches_format(data),
        records(data) is Ok,
        well_ordered(raw_roles(records(data)->Ok_0)),
        header_of(records(data)->Ok_0[0].data) is Ok,
        decoding(data)->Ok_0.width == header_of(records(data)->Ok_0[0].data)->Ok_0.width,
        decoding(data)->Ok_0.height == header_of(records(data)->Ok_0[0].data)->Ok_0.height,
        decoding(data)->Ok_0.pixels.len() == decoding(data)->Ok_0.width * decoding(
            data,
        )->Ok_0.height,
{
    let raws = records(data)->Ok_0;
    let n = raws.len() as int;
    let roles = raw_roles(raws);
    lemma_order_check_sound_and_complete(roles);
    lemma_interpreted_chunk_by_chunk(raws, n);
    let chunks = interpreted(raws, n)->Ok_0;
    assert(roles[0] == ChunkRole::Header);
    assert(raws[0].chunk_type == PNGChunkType::IHDR);
    assert(interpret(raws[0]) == Ok::<Chunk, Failure>(chunks[0]));
    assert forall|i: int| 0 < i < n implies !(#[trigger] chunks[i] is IHDR) by {
        assert(roles[i] != ChunkRole::Header);
        assert(interpret(raws[i]) == Ok::<Chunk, Failure>(chunks[i]));
    }
    lemma_only_header_is_last(chunks, n);
}

impl PNG {
    /// Reads the payload of every chunk, in file order.
    pub fn read_chunks(chunks: &Vec<RawPngChunk>) -> (read: Result<Vec<PngChunk>, EncoderError>)
        ensures
            match read {
                Ok(list) => interpreted(raw_views(chunks@), chunks@.len() as int) == Ok::<
                    Seq<Chunk>,
                    Failure,
                >(chunk_views(list@)),
                Err(e) => interpreted(raw_views(chunks@), chunks@.len() as int) == Err::<
                    Seq<Chunk>,
                    Failure,
                >(e@),
            },
    {
        let mut read: Vec<PngChunk> = Vec::new();
        let mut index: usize = 0;
        let ghost raws = raw_views(chunks@);
        assert(chunk_views(read@) =~= Seq::<Chunk>::empty());
        while index < chunks.len()
            invariant
                index <= chunks@.len(),
                raws == raw_views(chunks@),
                interpreted(raws, index as int) == Ok::<Seq<Chunk>, Failure>(chunk_views(read@)),
            decreases chunks@.len() - index,
        {
            let ghost before = chunk_views(read@);
            assert(raws[index as int] == chunks@[index as int]@);
            let chunk = match PngChunk::from_raw_chunk(&chunks[index]) {
                Ok(chunk) => chunk,
                Err(e) => {
                    proof {
                        lemma_interpretation_fails_on(raws, index + 1, chunks@.len() as int);
                    }
                    return Err(e);
                },
            };
            let ghost value = chunk@;
            read.push(chunk);
            assert(chunk_views(read@) =~= before.push(value));
            index = index + 1;
        }
        Ok(read)
    }
}

impl Encodable for PNG {
    open spec fn recognises(&self, data: Seq<u8>) -> bool {
        matches_format(data)
    }

    open spec fn decoded(&self, data: Seq<u8>) -> Result<Picture, Failure> {
        decoding(data)
    }

    open spec fn encoded(&self, image: Picture) -> Result<Seq<u8>, Failure> {
        Err(encoding_unsupported())
    }

    /// Whether the data starts with the signature of a PNG file and goes on
    /// behind it.
    fn data_matches_format(&self, data: &[u8]) -> (matches: bool)
        ensures
            matches == matches_format(data@),
    {
        let matches = data.len() > 8 && data[0] == 0x89 && data[1] == 0x50 && data[2] == 0x4e
            && data[3] == 0x47 && data[4] == 0x0d && data[5] == 0x0a && data[6] == 0x1a && data[7]
            == 0x0a;
        proof {
            if matches {
                assert(data@.subrange(0, 8) =~= signature());
            } else if data@.len() > 8 {
                let head = data@.subrange(0, 8);
                assert(head[0] == data@[0] && head[1] == data@[1] && head[2] == data@[2]
                    && head[3] == data@[3] && head[4] == data@[4] && head[5] == data@[5]
                    && head[6] == data@[6] && head[7] == data@[7]);
            }
        }
        matches
    }

    /// Encoding is not offered: the call fails, whatever the picture.
    fn encode(&self, data: &ImageData) -> (bytes: Result<Vec<u8>, EncoderError>)
        ensures
            viewed(bytes) == Err::<Seq<u8>, Failure>(encoding_unsupported()),
    {
        Err(EncoderError::invalid_data("Encoding is not supported"))
    }

    /// Decodes a PNG file into its picture.
    fn decode(&self, data: &[u8]) -> (image: Result<ImageData, EncoderError>)
        ensures
            viewed(image) == decoding(data@),
            image matches Ok(picture) ==> picture.pixels@.len() == picture.width * picture.height,
    {
        if !self.data_matches_format(data) {
            return Err(EncoderError::invalid_data("Data is not in PNG format"));
        }
        let raw_chunks = match data_to_raw_chunks(data) {
            Ok(raw_chunks) => raw_chunks,
            Err(e) => {
                return Err(e);
            },
        };
        match validate_raw_chunks(&raw_chunks) {
            Ok(_) => {},
            Err(e) => {
                return Err(e);
            },
        }
        let chunks = match PNG::read_chunks(&raw_chunks) {
            Ok(chunks) => chunks,
            Err(e) => {
                return Err(e);
            },
        };
        let png_file = match PngFile::new(chunks) {
            Ok(png_file) => png_file,
            Err(e) => {
                return Err(e);
            },
        };
        png_file.to_image_data()
    }
}

} // verus!

//! The chunks of a file: how they are framed in the byte stream, and what
//! each of them says once its payload has been read.

use vstd::prelude::*;
use vstd::arithmetic::div_mod::lemma_fundamental_div_mod_converse;
use vstd::slice::*;
use vstd::string::*;
use crate::bytes::{be32, u8_to_u32};
use crate::encoders::{outcome, EncoderError, Failure};
use crate::png::chunk_type::{chunk_type_of, PNGChunkType};
use crate::png::crc::{crc32, crc32_of};
use crate::png::header::{
    header_of, read_header, BitDepth, ColorType, CompressionMethod, FilterMethod,
    InterlaceMethod, PngFileMetadata,
};
use crate::png::order::{check_order, no_chunks, order_check, well_ordered, ChunkRole};
use crate::text::{dec_text, decimal, hex_text, push_decimal, u32_to_dec, u32_to_hex};

verus! {

/// Where the first chunk starts: behind the signature.
pub const PNG_DATA_OFFSET: usize = 8;

/// A chunk as it was framed in the byte stream.
#[derive(Debug)]
pub struct RawPngChunk {
    pub length: u32,
    pub chunk_type: PNGChunkType,
    pub data: Vec<u8>,
    pub crc: u32,
}

/// The mathematical value of a `RawPngChunk`.
pub struct RawChunk {
    pub length: u32,
    pub chunk_type: PNGChunkType,
    pub data: Seq<u8>,
    pub crc: u32,
}

impl View for RawPngChunk {
    type V = RawChunk;

    open spec fn view(&self) -> RawChunk {
        RawChunk {
            length: self.length,
            chunk_type: self.chunk_type,
            data: self.data@,
            crc: self.crc,
        }
    }
}

/// The four bytes of a type code, most significant first.
pub open spec fn code_bytes(code: u32) -> Seq<u8> {
    seq![
        (code as int / 16777216) as u8,
        ((code as int / 65536) % 256) as u8,
        ((code as int / 256) % 256) as u8,
        (code as int % 256) as u8,
    ]
}

impl RawChunk {
    /// What holds of every chunk that was split off a byte stream: the payload
    /// has the length that the chunk declares, and the checksum is that of the
    /// type code followed by the payload.
    pub open spec fn well_formed(self) -> bool {
        &&& self.data.len() == self.length
        &&& self.crc == crc32_of(code_bytes(self.chunk_type.code()) + self.data)
    }

    /// What the order check takes the chunk for.
    pub open spec fn role(self) -> ChunkRole {
        match self.chunk_type {
            PNGChunkType::IHDR => ChunkRole::Header,
            PNGChunkType::IDAT => ChunkRole::ImageData,
            PNGChunkType::IEND => ChunkRole::End,
            _ => ChunkRole::Other,
        }
    }
}

impl RawPngChunk {
    /// The chunk with the given fields.
    pub fn new(length: u32, chunk_type: PNGChunkType, data: Vec<u8>, crc: u32) -> (chunk:
        RawPngChunk)
        ensures
            chunk@ == (RawChunk { length, chunk_type, data: data@, crc }),
    {
        RawPngChunk { length, chunk_type, data, crc }
    }

    /// What the order check takes the chunk for.
    pub fn role(&self) -> (role: ChunkRole)
        ensures
            role == self@.role(),
    {
        match self.chunk_type {
            PNGChunkType::IHDR => ChunkRole::Header,
            PNGChunkType::IDAT => ChunkRole::ImageData,
            PNGChunkType::IEND => ChunkRole::End,
            _ => ChunkRole::Other,
        }
    }
}

/// The values of a sequence of raw chunks.
pub open spec fn raw_views(chunks: Seq<RawPngChunk>) -> Seq<RawChunk> {
    Seq::new(chunks.len(), |i: int| chunks[i]@)
}

/// The roles of a sequence of raw chunks.
pub open spec fn raw_roles(chunks: Seq<RawChunk>) -> Seq<ChunkRole> {
    Seq::new(chunks.len(), |i: int| chunks[i].role())
}

/// The failure for a chunk that the data does not hold the whole of.
pub open spec fn chunk_too_small() -> Failure {
    Failure::InvalidData("PNG chunk is too small"@)
}

/// The failure for a chunk whose checksum is not that of its type and payload.
pub open spec fn checksum_mismatch() -> Failure {
    Failure::InvalidData("PNG chunk checksum does not match"@)
}

/// The failure for a type code that is not recognised: the code as a decimal
/// number, in hexadecimal, and byte by byte.
pub open spec fn unknown_chunk_type(code: u32) -> Failure {
    Failure::InvalidData(
        "Invalid PNG chunk type: "@ + decimal(code as nat) + " "@ + hex_text(code) + " "@
            + dec_text(code),
    )
}

/// The four bytes of `data` from `at` on, as one big-endian number.
pub open spec fn word_at(data: Seq<u8>, at: int) -> u32 {
    be32(data[at], data[at + 1], data[at + 2], data[at + 3]) as u32
}

/// The chunk that starts at `offset`: four bytes of length, four of type, the
/// payload, four of checksum. It fails if fewer than eight bytes are left, if
/// the payload and checksum would run past the end, if the type is not
/// recognised, or if the checksum is not that of type and payload.
pub open spec fn record_at(data: Seq<u8>, offset: int) -> Result<RawChunk, Failure> {
    if offset + 8 > data.len() {
        Err(chunk_too_small())
    } else {
        let length = word_at(data, offset);
        let code = word_at(data, offset + 4);
        if offset + 12 + length > data.len() {
            Err(chunk_too_small())
        } else {
            match chunk_type_of(code) {
                None => Err(unknown_chunk_type(code)),
                Some(chunk_type) => {
                    let crc = word_at(data, offset + 8 + length);
                    if crc32_of(data.subrange(offset + 4, offset + 8 + length)) != crc {
                        Err(checksum_mismatch())
                    } else {
                        Ok(
                            RawChunk {
                                length,
                                chunk_type,
                                data: data.subrange(offset + 8, offset + 8 + length),
                                crc,
                            },
                        )
                    }
                },
            }
        }
    }
}

/// `earlier` in front of a result.
pub open spec fn after<T>(earlier: Seq<T>, rest: Result<Seq<T>, Failure>) -> Result<
    Seq<T>,
    Failure,
> {
    match rest {
        Err(e) => Err(e),
        Ok(rest) => Ok(earlier + rest),
    }
}

/// The chunks from `offset` to the end of the data, in file order, or the
/// failure of the first one that cannot be read.
pub open spec fn records_from(data: Seq<u8>, offset: int) -> Result<Seq<RawChunk>, Failure>
    decreases data.len() - offset,
{
    if offset < 0 || offset >= data.len() {
        Ok(Seq::empty())
    } else {
        match record_at(data, offset) {
            Err(e) => Err(e),
            Ok(chunk) => after(seq![chunk], records_from(data, offset + 12 + chunk.length)),
        }
    }
}

/// The chunks of a file: those that follow its eight bytes of signature.
pub open spec fn records(data: Seq<u8>) -> Result<Seq<RawChunk>, Failure> {
    records_from(data, PNG_DATA_OFFSET as int)
}

/// The bytes of a word that four bytes make are those four bytes.
proof fn lemma_code_bytes_of_word(a: u8, b: u8, c: u8, d: u8)
    ensures
        code_bytes(be32(a, b, c, d) as u32) == seq![a, b, c, d],
{
    let word = be32(a, b, c, d);
    lemma_fundamental_div_mod_converse(word, 16777216, a as int, b * 65536 + c * 256 + d);
    lemma_fundamental_div_mod_converse(word, 65536, a * 256 + b, c * 256 + d);
    lemma_fundamental_div_mod_converse(a * 256 + b, 256, a as int, b as int);
    lemma_fundamental_div_mod_converse(word, 256, a * 65536 + b * 256 + c, d as int);
    lemma_fundamental_div_mod_converse(a * 65536 + b * 256 + c, 256, a * 256 + b, c as int);
    assert(code_bytes(word as u32) =~= seq![a, b, c, d]);
}

/// A chunk type that was found for a code has that code.
proof fn lemma_type_found_has_code(code: u32)
    requires
        chunk_type_of(code) is Some,
    ensures
        chunk_type_of(code)->0.code() == code,
{
}

/// A chunk that was read at an offset is well formed.
pub proof fn lemma_record_is_well_formed(data: Seq<u8>, offset: int)
    requires
        0 <= offset,
        record_at(data, offset) is Ok,
    ensures
        record_at(data, offset)->Ok_0.well_formed(),
{
    let chunk = record_at(data, offset)->Ok_0;
    let code = word_at(data, offset + 4);
    let checked = data.subrange(offset + 4, offset + 8 + chunk.length);
    assert(chunk.chunk_type.code() == code) by {
        lemma_type_found_has_code(code);
    }
    assert(code_bytes(code) == seq![
        data[offset + 4],
        data[offset + 5],
        data[offset + 6],
        data[offset + 7],
    ]) by {
        lemma_code_bytes_of_word(
            data[offset + 4],
            data[offset + 5],
            data[offset + 6],
            data[offset + 7],
        );
    }
    assert(checked =~= code_bytes(code) + chunk.data);
}

/// Every chunk that was split off a byte stream is well formed.
pub proof fn lemma_records_are_well_formed(data: Seq<u8>, offset: int)
    requires
        0 <= offset,
        records_from(data, offset) is Ok,
    ensures
        forall|i: int|
            0 <= i < records_from(data, offset)->Ok_0.len() ==> (#[trigger] records_from(
                data,
                offset,
            )->Ok_0[i]).well_formed(),
    decreases data.len() - offset,
{
    if offset < data.len() {
        lemma_record_is_well_formed(data, offset);
        let chunk = record_at(data, offset)->Ok_0;
        lemma_records_are_well_formed(data, offset + 12 + chunk.length);
    }
}

fn unknown_type(code: u32) -> (e: EncoderError)
    ensures
        e@ == unknown_chunk_type(code),
{
    let mut message = String::from_str("Invalid PNG chunk type: ");
    push_decimal(&mut message, code as u64);
    message.append(" ");
    let hex = u32_to_hex(code);
    message.append(hex.as_str());
    message.append(" ");
    let dec = u32_to_dec(code);
    message.append(dec.as_str());
    EncoderError::InvalidData(message)
}

fn read_chunk(data: &[u8], offset: usize) -> (chunk: Result<RawPngChunk, EncoderError>)
    requires
        offset < data@.len(),
    ensures
        match chunk {
            Ok(c) => record_at(data@, offset as int) == Ok::<RawChunk, Failure>(c@),
            Err(e) => record_at(data@, offset as int) == Err::<RawChunk, Failure>(e@),
        },
{
    let left = data.len() - offset;
    if left < 8 {
        return Err(EncoderError::invalid_data("PNG chunk is too small"));
    }
    let length = u8_to_u32(
        data[offset],
        data[offset + 1],
        data[offset + 2],
        data[offset + 3],
    );
    let code = u8_to_u32(
        data[offset + 4],
        data[offset + 5],
        data[offset + 6],
        data[offset + 7],
    );
    if ((left - 8) as u64) < (length as u64) + 4 {
        return Err(EncoderError::invalid_data("PNG chunk is too small"));
    }
    let size = length as usize;
    let chunk_type = match PNGChunkType::from_u32(code) {
        Some(chunk_type) => chunk_type,
        None => {
            return Err(unknown_type(code));
        },
    };
    let crc = u8_to_u32(
        data[offset + 8 + size],
        data[offset + 9 + size],
        data[offset + 10 + size],
        data[offset + 11 + size],
    );
    if crc32(slice_subrange(data, offset + 4, offset + 8 + size)) != crc {
        return Err(EncoderError::invalid_data("PNG chunk checksum does not match"));
    }
    let payload = slice_to_vec(slice_subrange(data, offset + 8, offset + 8 + size));
    Ok(RawPngChunk::new(length, chunk_type, payload, crc))
}

/// Splits a file into its chunks. The signature is skipped, not examined.
pub fn data_to_raw_chunks(data: &[u8]) -> (chunks: Result<Vec<RawPngChunk>, EncoderError>)
    ensures
        match chunks {
            Ok(list) => records(data@) == Ok::<Seq<RawChunk>, Failure>(raw_views(list@)),
            Err(e) => records(data@) == Err::<Seq<RawChunk>, Failure>(e@),
        },
        chunks matches Ok(list) ==> forall|i: int|
            0 <= i < list@.len() ==> (#[trigger] list@[i])@.well_formed(),
{
    let mut chunks: Vec<RawPngChunk> = Vec::new();
    let mut current_offset: usize = PNG_DATA_OFFSET;
    assert(raw_views(chunks@) + records_from(data@, 8)->Ok_0 =~= records_from(data@, 8)->Ok_0);
    while current_offset < data.len()
        invariant
            PNG_DATA_OFFSET <= current_offset,
            records(data@) == after(raw_views(chunks@), records_from(data@, current_offset as int)),
        decreases data@.len() - current_offset,
    {
        let ghost before = raw_views(chunks@);
        let chunk = match read_chunk(data, current_offset) {
            Ok(chunk) => chunk,
            Err(e) => {
                return Err(e);
            },
        };
        let ghost value = chunk@;
        let ghost rest = records_from(data@, current_offset + 12 + chunk.length);
        current_offset = current_offset + 12 + chunk.length as usize;
        chunks.push(chunk);
        proof {
            assert(raw_views(chunks@) =~= before.push(value));
            if let Ok(tail) = rest {
                assert(before + (seq![value] + tail) =~= before.push(value) + tail);
            }
        }
    }
    proof {
        assert(raw_views(chunks@) + Seq::<RawChunk>::empty() =~= raw_views(chunks@));
        lemma_records_are_well_formed(data@, PNG_DATA_OFFSET as int);
        assert forall|i: int| 0 <= i < chunks@.len() implies (#[trigger] chunks@[i])@.well_formed() by {
            assert(chunks@[i]@ == raw_views(chunks@)[i]);
        }
    }
    Ok(chunks)
}

/// A chunk with its payload read as far as the decoder needs it.
#[derive(Debug, Clone)]
pub enum PngChunk {
    /// The image header.
    IHDR {
        width: u32,
        height: u32,
        bit_depth: BitDepth,
        color_type: ColorType,
        compression_method: CompressionMethod,
        filter_method: FilterMethod,
        interlace_method: InterlaceMethod,
    },
    /// A piece of the compressed image data.
    IDAT { data: Vec<u8> },
    /// The palette: three bytes for each colour.
    PLTE { data: Vec<u8> },
    /// The transparency chunk.
    TRNS { data: Vec<u8> },
    /// The end marker.
    IEND,
    /// A chunk that does not bear on the pixels.
    Other,
}

/// The mathematical value of a `PngChunk`.
pub enum Chunk {
    IHDR(PngFileMetadata),
    IDAT(Seq<u8>),
    PLTE(Seq<u8>),
    TRNS(Seq<u8>),
    IEND,
    Other,
}

impl View for PngChunk {
    type V = Chunk;

    open spec fn view(&self) -> Chunk {
        match self {
            PngChunk::IHDR {
                width,
                height,
                bit_depth,
                color_type,
                compression_method,
                filter_method,
                interlace_method,
            } => Chunk::IHDR(
                PngFileMetadata {
                    width: *width,
                    height: *height,
                    bit_depth: *bit_depth,
                    color_type: *color_type,
                    compression_method: *compression_method,
                    filter_method: *filter_method,
                    interlace_method: *interlace_method,
                },
            ),
            PngChunk::IDAT { data } => Chunk::IDAT(data@),
            PngChunk::PLTE { data } => Chunk::PLTE(data@),
            PngChunk::TRNS { data } => Chunk::TRNS(data@),
            PngChunk::IEND => Chunk::IEND,
            PngChunk::Other => Chunk::Other,
        }
    }
}

impl Chunk {
    /// What the order check takes the chunk for.
    pub open spec fn role(self) -> ChunkRole {
        match self {
            Chunk::IHDR(_) => ChunkRole::Header,
            Chunk::IDAT(_) => ChunkRole::ImageData,
            Chunk::IEND => ChunkRole::End,
            _ => ChunkRole::Other,
        }
    }
}

impl Chunk {
    /// The chunk in words: its name and, behind a colon, the fields of a
    /// header or the length of a payload.
    pub open spec fn text(self) -> Seq<char> {
        match self {
            Chunk::IHDR(header) => "IHDR: width: "@ + decimal(header.width as nat)
                + ", height: "@ + decimal(header.height as nat) + ", bit_depth: "@ + decimal(
                header.bit_depth.bits() as nat,
            ) + ", color_type: "@ + decimal(header.color_type.code() as nat)
                + ", compression_method: "@ + decimal(0) + ", filter_method: "@ + decimal(0)
                + ", interlace_method: "@ + decimal(header.interlace_method.code() as nat),
            Chunk::IDAT(data) => "IDAT: data len: "@ + decimal(data.len()),
            Chunk::PLTE(data) => "PLTE: data len: "@ + decimal(data.len()),
            Chunk::TRNS(data) => "TRNS: data len: "@ + decimal(data.len()),
            Chunk::IEND => "IEND"@,
            Chunk::Other => "Other"@,
        }
    }
}

/// The values of a sequence of chunks.
pub open spec fn chunk_views(chunks: Seq<PngChunk>) -> Seq<Chunk> {
    Seq::new(chunks.len(), |i: int| chunks[i]@)
}

/// The roles of a sequence of chunks.
pub open spec fn chunk_roles(chunks: Seq<Chunk>) -> Seq<ChunkRole> {
    Seq::new(chunks.len(), |i: int| chunks[i].role())
}

/// What a raw chunk says: the header is read and checked, image data, palette
/// and transparency keep their payload, and every other chunk but the end
/// marker counts as `Other`.
pub open spec fn interpret(raw: RawChunk) -> Result<Chunk, Failure> {
    match raw.chunk_type {
        PNGChunkType::IHDR => match header_of(raw.data) {
            Err(e) => Err(e),
            Ok(header) => Ok(Chunk::IHDR(header)),
        },
        PNGChunkType::IDAT => Ok(Chunk::IDAT(raw.data)),
        PNGChunkType::PLTE => Ok(Chunk::PLTE(raw.data)),
        PNGChunkType::TRNS => Ok(Chunk::TRNS(raw.data)),
        PNGChunkType::IEND => Ok(Chunk::IEND),
        _ => Ok(Chunk::Other),
    }
}

impl PngChunk {
    /// Reads the payload of a raw chunk.
    pub fn from_raw_chunk(chunk: &RawPngChunk) -> (read: Result<PngChunk, EncoderError>)
        ensures
            match read {
                Ok(c) => interpret(chunk@) == Ok::<Chunk, Failure>(c@),
                Err(e) => interpret(chunk@) == Err::<Chunk, Failure>(e@),
            },
            read matches Ok(c) ==> c@.role() == chunk@.role(),
    {
        match chunk.chunk_type {
            PNGChunkType::IHDR => {
                let header = match read_header(chunk.data.as_slice()) {
                    Ok(header) => header,
                    Err(e) => {
                        return Err(e);
                    },
                };
                Ok(
                    PngChunk::IHDR {
                        width: header.width,
                        height: header.height,
                        bit_depth: header.bit_depth,
                        color_type: header.color_type,
                        compression_method: header.compression_method,
                        filter_method: header.filter_method,
                        interlace_method: header.interlace_method,
                    },
                )
            },
            PNGChunkType::IDAT => Ok(PngChunk::IDAT { data: slice_to_vec(chunk.data.as_slice()) }),
            PNGChunkType::PLTE => Ok(PngChunk::PLTE { data: slice_to_vec(chunk.data.as_slice()) }),
            PNGChunkType::TRNS => Ok(PngChunk::TRNS { data: slice_to_vec(chunk.data.as_slice()) }),
            PNGChunkType::IEND => Ok(PngChunk::IEND),
            _ => Ok(PngChunk::Other),
        }
    }

    /// The chunk in words.
    pub fn as_string(&self) -> (text: String)
        ensures
            text@ == self@.text(),
    {
        match self {
            Self::IHDR {
                width,
                height,
                bit_depth,
                color_type,
                compression_method,
                filter_method,
                interlace_method,
            } => {
                let mut text = String::from_str("IHDR: width: ");
                push_decimal(&mut text, *width as u64);
                text.append(", height: ");
                push_decimal(&mut text, *height as u64);
                text.append(", bit_depth: ");
                push_decimal(&mut text, bit_depth.value() as u64);
                text.append(", color_type: ");
                push_decimal(&mut text, color_type.value() as u64);
                text.append(", compression_method: ");
                push_decimal(&mut text, compression_method.value() as u64);
                text.append(", filter_method: ");
                push_decimal(&mut text, filter_method.value() as u64);
                text.append(", interlace_method: ");
                push_decimal(&mut text, interlace_method.value() as u64);
                text
            },
            Self::IDAT { data } => {
                let mut text = String::from_str("IDAT: data len: ");
                push_decimal(&mut text, data.len() as u64);
                text
            },
            Self::PLTE { data } => {
                let mut text = String::from_str("PLTE: data len: ");
                push_decimal(&mut text, data.len() as u64);
                text
            },
            Self::TRNS { data } => {
                let mut text = String::from_str("TRNS: data len: ");
                push_decimal(&mut text, data.len() as u64);
                text
            },
            Self::IEND => String::from_str("IEND"),
            Self::Other => String::from_str("Other"),
        }
    }

    /// What the order check takes the chunk for.
    pub fn role(&self) -> (role: ChunkRole)
        ensures
            role == self@.role(),
    {
        match self {
            PngChunk::IHDR { .. } => ChunkRole::Header,
            PngChunk::IDAT { .. } => ChunkRole::ImageData,
            PngChunk::IEND => ChunkRole::End,
            _ => ChunkRole::Other,
        }
    }
}

/// Checks that the chunks stand in an acceptable order and hands them back
/// unchanged. A failure handed in is answered with the failure `No chunks`.
pub fn validate_chunks(chunks: Result<Vec<PngChunk>, EncoderError>) -> (valid: Result<
    Vec<PngChunk>,
    EncoderError,
>)
    ensures
        match chunks {
            Err(_) => valid matches Err(e) && e@ == no_chunks(),
            Ok(list) => match order_check(chunk_roles(chunk_views(list@))) {
                Err(failure) => valid matches Err(e) && e@ == failure,
                Ok(_) => valid == Ok::<Vec<PngChunk>, EncoderError>(list),
            },
        },
        valid is Ok <==> (chunks matches Ok(list) && well_ordered(
            chunk_roles(chunk_views(list@)),
        )),
{
    match chunks {
        Ok(chunks) => {
            let mut roles: Vec<ChunkRole> = Vec::new();
            let mut index: usize = 0;
            while index < chunks.len()
                invariant
                    index <= chunks@.len(),
                    roles@ == chunk_roles(chunk_views(chunks@)).take(index as int),
                decreases chunks@.len() - index,
            {
                roles.push(chunks[index].role());
                index = index + 1;
            }
            assert(roles@ == chunk_roles(chunk_views(chunks@)));
            match check_order(roles.as_slice()) {
                Ok(_) => Ok(chunks),
                Err(e) => Err(e),
            }
        },
        Err(_) => Err(EncoderError::invalid_data("No chunks")),
    }
}

/// Checks that the raw chunks of a file stand in an acceptable order.
pub fn validate_raw_chunks(chunks: &Vec<RawPngChunk>) -> (valid: Result<(), EncoderError>)
    ensures
        outcome(valid) == order_check(raw_roles(raw_views(chunks@))),
        valid is Ok <==> well_ordered(raw_roles(raw_views(chunks@))),
{
    let mut roles: Vec<ChunkRole> = Vec::new();
    let mut index: usize = 0;
    while index < chunks.len()
        invariant
            index <= chunks@.len(),
            roles@ == raw_roles(raw_views(chunks@)).take(index as int),
        decreases chunks@.len() - index,
    {
        roles.push(chunks[index].role());
        index = index + 1;
    }
    assert(roles@ == raw_roles(raw_views(chunks@)));
    check_order(roles.as_slice())
}

} // verus!

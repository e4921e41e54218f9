//! A file ready to be drawn: its header, its palette and transparency, and its
//! inflated image data; and the picture that these make.

use vstd::prelude::*;
use vstd::slice::*;
use crate::encoders::{viewed, EncoderError, Failure};
use crate::pixel::{ImageData, Picture, PixelData};
use crate::png::adam7::{lemma_pixel_has_place, lemma_place_is_pixel, Place};
use crate::png::chunk::{chunk_views, Chunk, PngChunk};
use crate::png::filter::{
    block_filters_known, block_line, invalid_filter_type, line_views, reconstruct_block,
};
use crate::png::header::{BitDepth, ColorType, PngFileMetadata};
use crate::png::inflate::{inflate_zlib, zlib_inflated, InflateStatus};
use crate::png::scanline::{
    bytes_per_pixel, bytes_per_scanline, palette_index_out_of_bounds, pixel_of, pixel_stride,
    row_of_pixels, scanline_bytes, scanline_to_pixels_data,
};

verus! {

/// The failure for image data that is not as long as the scanlines of the
/// image are together.
pub open spec fn invalid_scanline_length() -> Failure {
    Failure::InvalidData("Invalid scanline length"@)
}

/// The failure for chunks without a header among them.
pub open spec fn no_metadata() -> Failure {
    Failure::InvalidData("No metadata"@)
}

impl PngFileMetadata {
    /// The number of pixels in a scanline of pass `p`.
    pub open spec fn pass_columns(self, p: int) -> int {
        self.interlace_method.pass(p).columns(self.width as int)
    }

    /// The number of scanlines of pass `p`: a pass without columns has none.
    pub open spec fn pass_lines(self, p: int) -> int {
        if self.pass_columns(p) == 0 {
            0
        } else {
            self.interlace_method.pass(p).rows(self.height as int)
        }
    }

    /// The number of data bytes in a scanline of pass `p`.
    pub open spec fn pass_line_bytes(self, p: int) -> int {
        scanline_bytes(self.pass_columns(p), self.bits_per_pixel())
    }

    /// The number of bytes that pass `p` fills: for each of its scanlines one
    /// filter byte and the data bytes.
    pub open spec fn pass_size(self, p: int) -> int {
        self.pass_lines(p) * (self.pass_line_bytes(p) + 1)
    }

    /// Where pass `p` starts in the inflated data: behind the passes before it.
    pub open spec fn pass_start(self, p: int) -> int
        decreases p,
    {
        if p <= 0 {
            0
        } else {
            self.pass_start(p - 1) + self.pass_size(p - 1)
        }
    }

    /// The number of bytes that all the scanlines of the image fill.
    pub open spec fn data_size(self) -> int {
        self.pass_start(self.interlace_method.passes())
    }

    /// The number of bytes from a pixel to the next.
    pub open spec fn stride(self) -> int {
        pixel_stride(self.bits_per_pixel())
    }

    /// The columns, scanlines and bytes in a scanline of pass `p`.
    pub fn pass_layout(&self, p: usize) -> (layout: (u32, u32, u64))
        ensures
            layout.0 == self.pass_columns(p as int),
            layout.1 == self.pass_lines(p as int),
            layout.2 == self.pass_line_bytes(p as int),
            layout.2 <= 0x8_0000_0000,
    {
        let pass = self.interlace_method.pass_geometry(p);
        let columns = pass.column_count(self.width);
        let lines = if columns == 0 {
            0
        } else {
            pass.row_count(self.height)
        };
        (columns, lines, bytes_per_scanline(columns, &self.color_type, &self.bit_depth))
    }

    /// Whether `length` bytes are what all the scanlines of the image fill.
    pub fn data_fits(&self, length: usize) -> (fits: bool)
        ensures
            fits == (length == self.data_size()),
    {
        let count = self.interlace_method.pass_count();
        let mut total: u128 = 0;
        let mut p: usize = 0;
        while p < count
            invariant
                p <= count == self.interlace_method.passes() <= 7,
                total == self.pass_start(p as int),
                total <= p * 0x100_0000_0000_0000_0000,
            decreases count - p,
        {
            let layout = self.pass_layout(p);
            let lines: u128 = layout.1 as u128;
            let bytes: u128 = layout.2 as u128 + 1;
            assert(lines * bytes <= 0x100_0000_0000_0000_0000) by (nonlinear_arith)
                requires
                    lines <= 0xFFFF_FFFF,
                    bytes <= 0x8_0000_0001,
            ;
            total = total + lines * bytes;
            p = p + 1;
        }
        total == length as u128
    }
}

/// No pass has a negative size, so the passes start one behind the other.
proof fn lemma_pass_starts_ascend(header: PngFileMetadata, p: int, q: int)
    requires
        0 <= p <= q,
    ensures
        0 <= header.pass_start(p) <= header.pass_start(q),
        p < q ==> header.pass_start(p) + header.pass_size(p) <= header.pass_start(q),
    decreases q,
{
    if q > 0 {
        let lines = header.pass_lines(q - 1);
        let bytes = header.pass_line_bytes(q - 1);
        assert(lines >= 0);
        assert(header.pass_columns(q - 1) >= 0);
        assert(header.bits_per_pixel() >= 0);
        assert(header.pass_columns(q - 1) * header.bits_per_pixel() >= 0) by (nonlinear_arith)
            requires
                header.pass_columns(q - 1) >= 0,
                header.bits_per_pixel() >= 0,
        ;
        assert(bytes >= 0);
        assert(lines * (bytes + 1) >= 0) by (nonlinear_arith)
            requires
                lines >= 0,
                bytes >= 0,
        ;
        if p < q {
            lemma_pass_starts_ascend(header, p, q - 1);
        } else {
            lemma_pass_starts_ascend(header, q - 1, q - 1);
        }
    }
}

/// A file ready to be drawn.
#[derive(Debug)]
pub struct PngFile {
    /// What the header says.
    pub metadata: PngFileMetadata,
    /// The payload of the palette chunk, three bytes for each entry; empty if
    /// the file has none.
    pub palette: Vec<u8>,
    /// The payload of the transparency chunk; empty if the file has none.
    pub transparency: Vec<u8>,
    /// The inflated image data: the scanlines, each behind its filter byte.
    pub data: Vec<u8>,
}

/// The mathematical value of a `PngFile`.
pub struct Document {
    pub metadata: PngFileMetadata,
    pub palette: Seq<u8>,
    pub transparency: Seq<u8>,
    pub data: Seq<u8>,
}

impl View for PngFile {
    type V = Document;

    open spec fn view(&self) -> Document {
        Document {
            metadata: self.metadata,
            palette: self.palette@,
            transparency: self.transparency@,
            data: self.data@,
        }
    }
}

impl Document {
    /// The reconstructed scanline `i` of pass `p`.
    pub open spec fn line(self, p: int, i: int) -> Seq<u8> {
        block_line(
            self.data,
            self.metadata.pass_start(p),
            self.metadata.pass_line_bytes(p),
            self.metadata.stride(),
            i,
        )
    }

    /// Every scanline of pass `p` has a filter type that there is.
    pub open spec fn pass_filters_known(self, p: int) -> bool {
        block_filters_known(
            self.data,
            self.metadata.pass_start(p),
            self.metadata.pass_line_bytes(p),
            self.metadata.pass_lines(p),
        )
    }

    /// Every scanline has a filter type that there is.
    pub open spec fn filters_known(self) -> bool {
        forall|p: int|
            0 <= p < self.metadata.interlace_method.passes() ==> #[trigger] self.pass_filters_known(
                p,
            )
    }

    /// The reconstructed scanlines of every pass, or why there are none: the
    /// data has not the length that the header asks for, or a scanline has a
    /// filter type that there is not.
    pub open spec fn reconstruction(self) -> Result<Seq<Seq<Seq<u8>>>, Failure> {
        if self.data.len() != self.metadata.data_size() {
            Err(invalid_scanline_length())
        } else if !self.filters_known() {
            Err(invalid_filter_type())
        } else {
            Ok(
                Seq::new(
                    self.metadata.interlace_method.passes() as nat,
                    |p: int| Seq::new(self.metadata.pass_lines(p) as nat, |i: int| self.line(p, i)),
                ),
            )
        }
    }

    /// The pixels of scanline `i` of pass `p`.
    pub open spec fn row(self, p: int, i: int) -> Result<Seq<PixelData>, Failure> {
        row_of_pixels(
            self.metadata.color_type,
            self.metadata.bit_depth,
            self.palette,
            self.transparency,
            self.line(p, i),
            self.metadata.pass_columns(p),
        )
    }

    /// The pixel at the given place of a pass.
    pub open spec fn pixel_in_pass(self, place: Place) -> Result<PixelData, Failure> {
        pixel_of(
            self.metadata.color_type,
            self.metadata.bit_depth,
            self.palette,
            self.transparency,
            self.line(place.pass, place.row),
            place.column,
        )
    }

    /// The pixel in column `x` of row `y` of the image: the one that its pass
    /// holds for it.
    pub open spec fn pixel_at(self, x: int, y: int) -> Result<PixelData, Failure> {
        self.pixel_in_pass(self.metadata.interlace_method.place_of(x, y))
    }

    /// Every pixel of the image has a colour.
    pub open spec fn colours_known(self) -> bool {
        forall|x: int, y: int|
            0 <= x < self.metadata.width && 0 <= y < self.metadata.height ==> (
            #[trigger] self.pixel_at(x, y)) is Ok
    }

    /// The pixels of the image, row by row.
    pub open spec fn pixels(self) -> Seq<PixelData> {
        Seq::new(
            (self.metadata.width * self.metadata.height) as nat,
            |k: int|
                self.pixel_at(
                    k % (self.metadata.width as int),
                    k / (self.metadata.width as int),
                )->Ok_0,
        )
    }

    /// The picture that the file holds, or why it holds none: the data has not
    /// the length that the header asks for; or else a scanline has a filter
    /// type that there is not; or else a pixel names a palette entry that
    /// there is not.
    pub open spec fn rendering(self) -> Result<Picture, Failure> {
        match self.reconstruction() {
            Err(e) => Err(e),
            Ok(_) => if !self.colours_known() {
                Err(palette_index_out_of_bounds())
            } else {
                Ok(
                    Picture {
                        width: self.metadata.width,
                        height: self.metadata.height,
                        pixels: self.pixels(),
                    },
                )
            },
        }
    }
}

/// The lines that the vectors of each pass hold.
pub open spec fn pass_views(passes: Seq<Vec<Vec<u8>>>) -> Seq<Seq<Seq<u8>>> {
    Seq::new(passes.len(), |p: int| line_views(passes[p]@))
}

/// A place of a pass is a pixel of the image: where a place has no colour, a
/// pixel has none.
proof fn lemma_place_without_colour(doc: Document, place: Place)
    requires
        doc.metadata.interlace_method.has_place(
            doc.metadata.width as int,
            doc.metadata.height as int,
            place,
        ),
        doc.pixel_in_pass(place) is Err,
    ensures
        !doc.colours_known(),
{
    let method = doc.metadata.interlace_method;
    lemma_place_is_pixel(method, doc.metadata.width as int, doc.metadata.height as int, place);
    let x = method.pass(place.pass).column_of(place.column);
    let y = method.pass(place.pass).row_of(place.row);
    assert(doc.pixel_at(x, y) is Err);
}

/// A pixel of the image is a place of a pass: where every row of every pass
/// has its colours, every pixel has one.
proof fn lemma_rows_give_colours(doc: Document)
    requires
        forall|p: int, i: int|
            0 <= p < doc.metadata.interlace_method.passes() && 0 <= i < doc.metadata.pass_lines(p)
                ==> (#[trigger] doc.row(p, i)) is Ok,
    ensures
        doc.colours_known(),
{
    let method = doc.metadata.interlace_method;
    assert forall|x: int, y: int|
        0 <= x < doc.metadata.width && 0 <= y < doc.metadata.height implies (
    #[trigger] doc.pixel_at(x, y)) is Ok by {
        lemma_pixel_has_place(method, doc.metadata.width as int, doc.metadata.height as int, x, y);
        let place = method.place_of(x, y);
        assert(doc.row(place.pass, place.row) is Ok);
        assert(doc.pixel_in_pass(place) is Ok);
    }
}

/// The header of the last header chunk among the first `n` chunks.
pub open spec fn last_header(chunks: Seq<Chunk>, n: int) -> Option<PngFileMetadata>
    decreases n,
{
    if n <= 0 {
        None
    } else {
        match chunks[n - 1] {
            Chunk::IHDR(header) => Some(header),
            _ => last_header(chunks, n - 1),
        }
    }
}

/// The payload of the last palette chunk among the first `n` chunks; empty if
/// there is none.
pub open spec fn last_palette(chunks: Seq<Chunk>, n: int) -> Seq<u8>
    decreases n,
{
    if n <= 0 {
        Seq::empty()
    } else {
        match chunks[n - 1] {
            Chunk::PLTE(data) => data,
            _ => last_palette(chunks, n - 1),
        }
    }
}

/// The payload of the last transparency chunk among the first `n` chunks;
/// empty if there is none.
pub open spec fn last_transparency(chunks: Seq<Chunk>, n: int) -> Seq<u8>
    decreases n,
{
    if n <= 0 {
        Seq::empty()
    } else {
        match chunks[n - 1] {
            Chunk::TRNS(data) => data,
            _ => last_transparency(chunks, n - 1),
        }
    }
}

/// The payloads of the image data chunks among the first `n` chunks, one
/// behind the other in the order of the chunks.
pub open spec fn image_data(chunks: Seq<Chunk>, n: int) -> Seq<u8>
    decreases n,
{
    if n <= 0 {
        Seq::empty()
    } else {
        match chunks[n - 1] {
            Chunk::IDAT(data) => image_data(chunks, n - 1) + data,
            _ => image_data(chunks, n - 1),
        }
    }
}

/// The file that the parts make: none without a header, none if the image
/// data could not be inflated.
pub open spec fn assembled(
    metadata: Option<PngFileMetadata>,
    palette: Seq<u8>,
    transparency: Seq<u8>,
    inflated: Result<Seq<u8>, InflateStatus>,
) -> Result<Document, Failure> {
    match metadata {
        None => Err(no_metadata()),
        Some(metadata) => match inflated {
            Err(status) => Err(status.failure()),
            Ok(data) => Ok(Document { metadata, palette, transparency, data }),
        },
    }
}

/// The file that the chunks make, given what inflating their image data gives.
pub open spec fn file_of(chunks: Seq<Chunk>, inflated: Result<Seq<u8>, InflateStatus>) -> Result<
    Document,
    Failure,
> {
    let n = chunks.len() as int;
    assembled(
        last_header(chunks, n),
        last_palette(chunks, n),
        last_transparency(chunks, n),
        inflated,
    )
}

/// An inflation with its bytes taken as a sequence.
pub open spec fn inflation_view(inflated: Result<Vec<u8>, InflateStatus>) -> Result<
    Seq<u8>,
    InflateStatus,
> {
    match inflated {
        Ok(bytes) => Ok(bytes@),
        Err(status) => Err(status),
    }
}

fn append_bytes(target: &mut Vec<u8>, bytes: &[u8])
    ensures
        final(target)@ == old(target)@ + bytes@,
{
    let mut i: usize = 0;
    while i < bytes.len()
        invariant
            i <= bytes@.len(),
            target@ == old(target)@ + bytes@.take(i as int),
        decreases bytes@.len() - i,
    {
        target.push(bytes[i]);
        i = i + 1;
        assert(target@ =~= old(target)@ + bytes@.take(i as int));
    }
    assert(bytes@.take(bytes@.len() as int) =~= bytes@);
}

impl PngFile {
    /// Puts a file together from its parts and from what inflating its image
    /// data gave.
    pub fn from_parts(
        metadata: Option<PngFileMetadata>,
        palette: Vec<u8>,
        transparency: Vec<u8>,
        inflated: Result<Vec<u8>, InflateStatus>,
    ) -> (file: Result<PngFile, EncoderError>)
        ensures
            viewed(file) == assembled(
                metadata,
                palette@,
                transparency@,
                inflation_view(inflated),
            ),
    {
        match metadata {
            Some(metadata) => match inflated {
                Ok(data) => Ok(PngFile { metadata, palette, transparency, data }),
                Err(status) => Err(status.to_error()),
            },
            None => Err(EncoderError::invalid_data("No metadata")),
        }
    }

    /// Puts a file together from its chunks: the header, the palette and the
    /// transparency are those of the last chunk of their kind, and the image
    /// data is what the payloads of the image data chunks, one behind the
    /// other, inflate to.
    pub fn new(chunks: Vec<PngChunk>) -> (file: Result<PngFile, EncoderError>)
        ensures
            viewed(file) == file_of(
                chunk_views(chunks@),
                zlib_inflated(image_data(chunk_views(chunks@), chunks@.len() as int)),
            ),
    {
        let mut metadata: Option<PngFileMetadata> = None;
        let mut palette: Vec<u8> = Vec::new();
        let mut transparency: Vec<u8> = Vec::new();
        let mut stream: Vec<u8> = Vec::new();
        let ghost values = chunk_views(chunks@);
        let mut index: usize = 0;
        while index < chunks.len()
            invariant
                index <= chunks@.len(),
                values == chunk_views(chunks@),
                metadata == last_header(values, index as int),
                palette@ == last_palette(values, index as int),
                transparency@ == last_transparency(values, index as int),
                stream@ == image_data(values, index as int),
            decreases chunks@.len() - index,
        {
            assert(values[index as int] == chunks@[index as int]@);
            match &chunks[index] {
                PngChunk::IHDR {
                    width,
                    height,
                    bit_depth,
                    color_type,
                    compression_method,
                    filter_method,
                    interlace_method,
                } => {
                    metadata = Some(
                        PngFileMetadata {
                            width: *width,
                            height: *height,
                            bit_depth: *bit_depth,
                            color_type: *color_type,
                            compression_method: *compression_method,
                            filter_method: *filter_method,
                            interlace_method: *interlace_method,
                        },
                    );
                },
                PngChunk::IDAT { data } => {
                    append_bytes(&mut stream, data.as_slice());
                },
                PngChunk::PLTE { data } => {
                    palette = slice_to_vec(data.as_slice());
                },
                PngChunk::TRNS { data } => {
                    transparency = slice_to_vec(data.as_slice());
                },
                PngChunk::IEND => {},
                PngChunk::Other => {},
            }
            index = index + 1;
        }
        if metadata.is_none() {
            return Err(EncoderError::invalid_data("No metadata"));
        }
        let inflated = inflate_zlib(stream.as_slice());
        PngFile::from_parts(metadata, palette, transparency, inflated)
    }

    /// The width of the image in pixels.
    pub fn width(&self) -> (width: u32)
        ensures
            width == self.metadata.width,
    {
        self.metadata.width
    }

    /// The height of the image in pixels.
    pub fn height(&self) -> (height: u32)
        ensures
            height == self.metadata.height,
    {
        self.metadata.height
    }

    /// How the samples of a pixel are to be read.
    pub fn color_type(&self) -> (color_type: &ColorType)
        ensures
            *color_type == self.metadata.color_type,
    {
        &self.metadata.color_type
    }

    /// The number of bits in one sample.
    pub fn bit_depth(&self) -> (bit_depth: &BitDepth)
        ensures
            *bit_depth == self.metadata.bit_depth,
    {
        &self.metadata.bit_depth
    }

    /// Undoes the filters of every scanline, pass by pass.
    pub fn reconstruct(&self) -> (passes: Result<Vec<Vec<Vec<u8>>>, EncoderError>)
        ensures
            match passes {
                Ok(list) => self@.reconstruction() == Ok::<Seq<Seq<Seq<u8>>>, Failure>(
                    pass_views(list@),
                ),
                Err(e) => self@.reconstruction() == Err::<Seq<Seq<Seq<u8>>>, Failure>(e@),
            },
    {
        if !self.metadata.data_fits(self.data.len()) {
            return Err(EncoderError::invalid_data("Invalid scanline length"));
        }
        let stride = bytes_per_pixel(&self.metadata.color_type, &self.metadata.bit_depth);
        let count = self.metadata.interlace_method.pass_count();
        let mut passes: Vec<Vec<Vec<u8>>> = Vec::new();
        let mut start: usize = 0;
        let mut p: usize = 0;
        while p < count
            invariant
                p <= count == self.metadata.interlace_method.passes(),
                self.data@.len() == self.metadata.data_size() <= usize::MAX,
                stride == self.metadata.stride(),
                start == self.metadata.pass_start(p as int),
                passes@.len() == p,
                forall|q: int| 0 <= q < p ==> #[trigger] self@.pass_filters_known(q),
                forall|q: int|
                    0 <= q < p ==> line_views((#[trigger] passes@[q])@) == Seq::new(
                        self.metadata.pass_lines(q) as nat,
                        |i: int| self@.line(q, i),
                    ),
            decreases count - p,
        {
            proof {
                lemma_pass_starts_ascend(self.metadata, p as int, count as int);
            }
            let layout = self.metadata.pass_layout(p);
            let lines = layout.1 as usize;
            let ghost size = self.metadata.pass_size(p as int);
            assert(size == lines * (layout.2 + 1));
            assert(start + size <= self.data@.len());
            let block: Vec<Vec<u8>> = if lines == 0 {
                assert(self@.pass_filters_known(p as int));
                Vec::new()
            } else {
                assert(layout.2 + 1 <= size) by (nonlinear_arith)
                    requires
                        size == lines * (layout.2 + 1),
                        lines >= 1,
                        layout.2 >= 0,
                ;
                let width = layout.2 as usize;
                match reconstruct_block(self.data.as_slice(), start, width, lines, stride) {
                    Ok(block) => block,
                    Err(e) => {
                        assert(!self@.pass_filters_known(p as int));
                        return Err(e);
                    },
                }
            };
            assert(line_views(block@) =~= Seq::new(
                self.metadata.pass_lines(p as int) as nat,
                |i: int| self@.line(p as int, i),
            ));
            let filled: usize = if lines == 0 {
                assert(size == 0) by (nonlinear_arith)
                    requires
                        size == lines * (layout.2 + 1),
                        lines == 0,
                ;
                0
            } else {
                lines * (layout.2 as usize + 1)
            };
            start = start + filled;
            passes.push(block);
            p = p + 1;
        }
        assert(pass_views(passes@) =~= self@.reconstruction()->Ok_0);
        Ok(passes)
    }

    /// Composes the pixels of every scanline of pass `p`.
    fn compose_pass(&self, p: usize, lines: &Vec<Vec<u8>>) -> (rows: Result<
        Vec<Vec<PixelData>>,
        EncoderError,
    >)
        requires
            p < self.metadata.interlace_method.passes(),
            line_views(lines@) == Seq::new(
                self.metadata.pass_lines(p as int) as nat,
                |i: int| self@.line(p as int, i),
            ),
        ensures
            match rows {
                Ok(list) => {
                    &&& list@.len() == self.metadata.pass_lines(p as int)
                    &&& forall|i: int|
                        0 <= i < list@.len() ==> (#[trigger] self@.row(p as int, i)) == Ok::<
                            Seq<PixelData>,
                            Failure,
                        >(list@[i]@)
                },
                Err(e) => e@ == palette_index_out_of_bounds() && !self@.colours_known(),
            },
    {
        let layout = self.metadata.pass_layout(p);
        let mut rows: Vec<Vec<PixelData>> = Vec::new();
        let mut i: usize = 0;
        assert(lines@.len() == line_views(lines@).len());
        while i < lines.len()
            invariant
                i <= lines@.len() == self.metadata.pass_lines(p as int),
                p < self.metadata.interlace_method.passes(),
                layout.0 == self.metadata.pass_columns(p as int),
                line_views(lines@) == Seq::new(
                    self.metadata.pass_lines(p as int) as nat,
                    |i: int| self@.line(p as int, i),
                ),
                rows@.len() == i,
                forall|k: int|
                    0 <= k < i ==> (#[trigger] self@.row(p as int, k)) == Ok::<
                        Seq<PixelData>,
                        Failure,
                    >(rows@[k]@),
            decreases lines@.len() - i,
        {
            assert(lines@[i as int]@ == line_views(lines@)[i as int]);
            assert(lines@[i as int]@ == self@.line(p as int, i as int));
            let row = match scanline_to_pixels_data(
                lines[i].as_slice(),
                layout.0,
                &self.metadata.color_type,
                &self.metadata.bit_depth,
                self.palette.as_slice(),
                self.transparency.as_slice(),
            ) {
                Ok(row) => row,
                Err(e) => {
                    proof {
                        self@.lemma_row_without_colours(p as int, i as int);
                    }
                    return Err(e);
                },
            };
            rows.push(row);
            i = i + 1;
        }
        Ok(rows)
    }

    /// Composes the pixels of every scanline of every pass.
    fn compose_rows(&self, passes: &Vec<Vec<Vec<u8>>>) -> (rows: Result<
        Vec<Vec<Vec<PixelData>>>,
        EncoderError,
    >)
        requires
            self@.reconstruction() == Ok::<Seq<Seq<Seq<u8>>>, Failure>(pass_views(passes@)),
        ensures
            match rows {
                Ok(list) => {
                    &&& self@.colours_known()
                    &&& list@.len() == self.metadata.interlace_method.passes()
                    &&& forall|p: int|
                        0 <= p < list@.len() ==> (#[trigger] list@[p])@.len()
                            == self.metadata.pass_lines(p)
                    &&& forall|p: int, i: int|
                        0 <= p < list@.len() && 0 <= i < self.metadata.pass_lines(p) ==> (
                        #[trigger] self@.row(p, i)) == Ok::<Seq<PixelData>, Failure>(
                            list@[p]@[i]@,
                        )
                },
                Err(e) => e@ == palette_index_out_of_bounds() && !self@.colours_known(),
            },
    {
        let mut rows: Vec<Vec<Vec<PixelData>>> = Vec::new();
        let mut p: usize = 0;
        assert(passes@.len() == pass_views(passes@).len());
        while p < passes.len()
            invariant
                p <= passes@.len() == self.metadata.interlace_method.passes(),
                self@.reconstruction() == Ok::<Seq<Seq<Seq<u8>>>, Failure>(pass_views(passes@)),
                rows@.len() == p,
                forall|q: int|
                    0 <= q < p ==> (#[trigger] rows@[q])@.len() == self.metadata.pass_lines(q),
                forall|q: int, i: int|
                    0 <= q < p && 0 <= i < self.metadata.pass_lines(q) ==> (#[trigger] self@.row(
                        q,
                        i,
                    )) == Ok::<Seq<PixelData>, Failure>(rows@[q]@[i]@),
            decreases passes@.len() - p,
        {
            assert(line_views(passes@[p as int]@) == pass_views(passes@)[p as int]);
            let pass_rows = match self.compose_pass(p, &passes[p]) {
                Ok(pass_rows) => pass_rows,
                Err(e) => {
                    return Err(e);
                },
            };
            rows.push(pass_rows);
            p = p + 1;
        }
        proof {
            lemma_rows_give_colours(self@);
        }
        Ok(rows)
    }

    /// Puts the pixels of the passes where they belong in the image.
    fn gather(&self, rows: &Vec<Vec<Vec<PixelData>>>) -> (image: ImageData)
        requires
            self@.colours_known(),
            rows@.len() == self.metadata.interlace_method.passes(),
            forall|p: int|
                0 <= p < rows@.len() ==> (#[trigger] rows@[p])@.len() == self.metadata.pass_lines(
                    p,
                ),
            forall|p: int, i: int|
                0 <= p < rows@.len() && 0 <= i < self.metadata.pass_lines(p) ==> (
                #[trigger] self@.row(p, i)) == Ok::<Seq<PixelData>, Failure>(rows@[p]@[i]@),
        ensures
            image@ == (Picture {
                width: self.metadata.width,
                height: self.metadata.height,
                pixels: self@.pixels(),
            }),
    {
        let width = self.metadata.width;
        let height = self.metadata.height;
        let method = self.metadata.interlace_method;
        let mut pixels: Vec<PixelData> = Vec::new();
        let mut y: u32 = 0;
        while y < height
            invariant
                y <= height == self.metadata.height,
                width == self.metadata.width,
                method == self.metadata.interlace_method,
                self@.colours_known(),
                rows@.len() == method.passes(),
                forall|p: int|
                    0 <= p < rows@.len() ==> (#[trigger] rows@[p])@.len()
                        == self.metadata.pass_lines(p),
                forall|p: int, i: int|
                    0 <= p < rows@.len() && 0 <= i < self.metadata.pass_lines(p) ==> (
                    #[trigger] self@.row(p, i)) == Ok::<Seq<PixelData>, Failure>(rows@[p]@[i]@),
                pixels@.len() == y * width,
                forall|k: int|
                    0 <= k < pixels@.len() ==> #[trigger] pixels@[k] == self@.pixel_at(
                        k % (width as int),
                        k / (width as int),
                    )->Ok_0,
            decreases height - y,
        {
            let mut x: u32 = 0;
            while x < width
                invariant
                    y < height == self.metadata.height,
                    x <= width == self.metadata.width,
                    method == self.metadata.interlace_method,
                    self@.colours_known(),
                    rows@.len() == method.passes(),
                    forall|p: int|
                        0 <= p < rows@.len() ==> (#[trigger] rows@[p])@.len()
                            == self.metadata.pass_lines(p),
                    forall|p: int, i: int|
                        0 <= p < rows@.len() && 0 <= i < self.metadata.pass_lines(p) ==> (
                        #[trigger] self@.row(p, i)) == Ok::<Seq<PixelData>, Failure>(
                            rows@[p]@[i]@,
                        ),
                    pixels@.len() == y * width + x,
                    forall|k: int|
                        0 <= k < pixels@.len() ==> #[trigger] pixels@[k] == self@.pixel_at(
                            k % (width as int),
                            k / (width as int),
                        )->Ok_0,
                decreases width - x,
            {
                proof {
                    lemma_pixel_has_place(method, width as int, height as int, x as int, y as int);
                    lemma_cell_number(width as int, x as int, y as int);
                }
                let ghost place = method.place_of(x as int, y as int);
                let p = method.pass_of_pixel(x, y);
                let pass = method.pass_geometry(p);
                let i = ((y - pass.start_row) / pass.row_step) as usize;
                let j = ((x - pass.start_col) / pass.col_step) as usize;
                assert(p == place.pass && i == place.row && j == place.column);
                assert(self@.row(p as int, i as int) == Ok::<Seq<PixelData>, Failure>(
                    rows@[p as int]@[i as int]@,
                ));
                assert(self@.pixel_at(x as int, y as int) is Ok);
                let pixel = rows[p][i][j];
                assert(pixel == self@.pixel_at(x as int, y as int)->Ok_0);
                pixels.push(pixel);
                x = x + 1;
            }
            assert((y + 1) * width == y * width + width) by (nonlinear_arith);
            y = y + 1;
        }
        assert(height * width == width * height) by (nonlinear_arith);
        assert(pixels@ =~= self@.pixels());
        ImageData { width, height, pixels }
    }

    /// Decodes the picture: undoes the filters of the scanlines, composes
    /// their pixels and, for an interlaced image, puts the pixels of the seven
    /// passes where they belong.
    pub fn to_image_data(&self) -> (image: Result<ImageData, EncoderError>)
        ensures
            viewed(image) == self@.rendering(),
            image matches Ok(picture) ==> picture.pixels@.len() == picture.width * picture.height,
    {
        let passes = match self.reconstruct() {
            Ok(passes) => passes,
            Err(e) => {
                return Err(e);
            },
        };
        let rows = match self.compose_rows(&passes) {
            Ok(rows) => rows,
            Err(e) => {
                return Err(e);
            },
        };
        Ok(self.gather(&rows))
    }
}

impl Document {
    /// Where a row of a pass lacks a colour, a pixel of the image lacks one.
    proof fn lemma_row_without_colours(self, p: int, i: int)
        requires
            0 <= p < self.metadata.interlace_method.passes(),
            0 <= i < self.metadata.pass_lines(p),
            self.row(p, i) is Err,
        ensures
            !self.colours_known(),
    {
        let columns = self.metadata.pass_columns(p);
        let j = choose|j: int|
            0 <= j < columns && !((#[trigger] pixel_of(
                self.metadata.color_type,
                self.metadata.bit_depth,
                self.palette,
                self.transparency,
                self.line(p, i),
                j,
            )) is Ok);
        lemma_place_without_colour(self, Place { pass: p, row: i, column: j });
    }
}

/// The passes are scattered into the picture: the pixel that a pass holds at a
/// place is the pixel of the picture in the column and the row that the place
/// stands for.
pub proof fn lemma_passes_are_scattered(doc: Document, place: Place)
    requires
        doc.rendering() is Ok,
        doc.metadata.interlace_method.has_place(
            doc.metadata.width as int,
            doc.metadata.height as int,
            place,
        ),
    ensures
        ({
            let pass = doc.metadata.interlace_method.pass(place.pass);
            let at = pass.row_of(place.row) * doc.metadata.width + pass.column_of(place.column);
            &&& 0 <= at < doc.rendering()->Ok_0.pixels.len()
            &&& doc.pixel_in_pass(place) == Ok::<PixelData, Failure>(
                doc.rendering()->Ok_0.pixels[at],
            )
        }),
{
    let width = doc.metadata.width as int;
    let height = doc.metadata.height as int;
    let pass = doc.metadata.interlace_method.pass(place.pass);
    let x = pass.column_of(place.column);
    let y = pass.row_of(place.row);
    lemma_place_is_pixel(doc.metadata.interlace_method, width, height, place);
    lemma_cell_number(width, x, y);
    assert(y * width + x < width * height) by (nonlinear_arith)
        requires
            0 <= x < width,
            0 <= y < height,
    ;
    assert(doc.pixel_at(x, y) is Ok);
}

/// The pixel in column `x` of row `y` has the number `y * width + x`.
proof fn lemma_cell_number(width: int, x: int, y: int)
    by (nonlinear_arith)
    requires
        0 <= x < width,
        0 <= y,
    ensures
        0 <= y * width + x,
        (y * width + x) % width == x,
        (y * width + x) / width == y,
{
}

} // verus!

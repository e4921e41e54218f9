//! The five scanline filters and how they are undone.

use vstd::prelude::*;
use vstd::slice::*;
use crate::encoders::{viewed, EncoderError, Failure};

verus! {

/// The largest filter type there is.
pub const MAX_FILTER_TYPE: u8 = 4;

/// The failure for a scanline with a filter type above four.
pub open spec fn invalid_filter_type() -> Failure {
    Failure::InvalidData("Invalid filter type"@)
}

/// The distance of `x` from `y`.
pub open spec fn distance(x: int, y: int) -> int {
    if x >= y {
        x - y
    } else {
        y - x
    }
}

/// The Paeth predictor: that one of left `a`, above `b` and upper left `c`
/// which lies nearest to `a + b - c`; among equally near ones `a` goes before
/// `b`, and `b` before `c`.
pub open spec fn paeth_predictor(a: int, b: int, c: int) -> int {
    let p = a + b - c;
    if distance(p, a) <= distance(p, b) && distance(p, a) <= distance(p, c) {
        a
    } else if distance(p, b) <= distance(p, c) {
        b
    } else {
        c
    }
}

/// What a filter type predicts for a byte from the bytes left of it (`a`),
/// above it (`b`) and above left of it (`c`): nothing, `a`, `b`, the mean of
/// `a` and `b` rounded down, or the Paeth predictor. The function is opaque:
/// a proof that needs its value reveals it.
#[verifier::opaque]
pub open spec fn prediction(filter: u8, a: int, b: int, c: int) -> int {
    if filter == 1 {
        a
    } else if filter == 2 {
        b
    } else if filter == 3 {
        (a + b) / 2
    } else if filter == 4 {
        paeth_predictor(a, b, c)
    } else {
        0
    }
}

/// The byte of the line above at `x`; zero where there is none.
pub open spec fn above(prior: Seq<u8>, x: int) -> int {
    if 0 <= x < prior.len() {
        prior[x] as int
    } else {
        0
    }
}

/// The reconstructed byte at `x` of a filtered line: the filtered byte plus
/// the prediction, modulo 256. The byte to the left is the reconstructed byte
/// `stride` places back, zero where there is none.
pub open spec fn recon_byte(filter: u8, line: Seq<u8>, prior: Seq<u8>, stride: int, x: int) -> u8
    decreases x,
{
    if x < 0 || x >= line.len() {
        0
    } else {
        let a = if stride >= 1 && x >= stride {
            recon_byte(filter, line, prior, stride, x - stride) as int
        } else {
            0
        };
        let b = above(prior, x);
        let c = if stride >= 1 {
            above(prior, x - stride)
        } else {
            0
        };
        ((line[x] + prediction(filter, a, b, c)) % 256) as u8
    }
}

/// The reconstructed line, or the failure for a filter type that there is not.
pub open spec fn unfiltering(filter: u8, line: Seq<u8>, prior: Seq<u8>, stride: int) -> Result<
    Seq<u8>,
    Failure,
> {
    if filter > MAX_FILTER_TYPE {
        Err(invalid_filter_type())
    } else {
        Ok(unfiltered(filter, line, prior, stride))
    }
}

/// The filtered line, or the failure for a filter type that there is not.
pub open spec fn filtering(filter: u8, raw: Seq<u8>, prior: Seq<u8>, stride: int) -> Result<
    Seq<u8>,
    Failure,
> {
    if filter > MAX_FILTER_TYPE {
        Err(invalid_filter_type())
    } else {
        Ok(filtered(filter, raw, prior, stride))
    }
}

/// The reconstructed line.
pub open spec fn unfiltered(filter: u8, line: Seq<u8>, prior: Seq<u8>, stride: int) -> Seq<u8> {
    Seq::new(line.len(), |x: int| recon_byte(filter, line, prior, stride, x))
}

/// The filtered byte at `x` of a raw line: the raw byte minus the prediction,
/// modulo 256.
pub open spec fn filter_byte(filter: u8, raw: Seq<u8>, prior: Seq<u8>, stride: int, x: int) -> u8 {
    let a = if stride >= 1 && x >= stride {
        raw[x - stride] as int
    } else {
        0
    };
    let b = above(prior, x);
    let c = if stride >= 1 {
        above(prior, x - stride)
    } else {
        0
    };
    ((raw[x] - prediction(filter, a, b, c)) % 256) as u8
}

/// The filtered line.
pub open spec fn filtered(filter: u8, raw: Seq<u8>, prior: Seq<u8>, stride: int) -> Seq<u8> {
    Seq::new(raw.len(), |x: int| filter_byte(filter, raw, prior, stride, x))
}

/// Taking a number off a byte and adding it again, both modulo 256, gives the
/// byte back; and so the other way round.
proof fn lemma_take_and_add(byte: int, number: int)
    requires
        0 <= byte < 256,
    ensures
        (((byte - number) % 256) + number) % 256 == byte,
        (((byte + number) % 256) - number) % 256 == byte,
{
}

/// Undoing a filter gives back the line that was filtered, byte by byte.
pub proof fn lemma_recon_of_filtered(
    filter: u8,
    raw: Seq<u8>,
    prior: Seq<u8>,
    stride: int,
    x: int,
)
    requires
        0 <= x < raw.len(),
    ensures
        recon_byte(filter, filtered(filter, raw, prior, stride), prior, stride, x) == raw[x],
    decreases x,
{
    let line = filtered(filter, raw, prior, stride);
    if stride >= 1 && x >= stride {
        lemma_recon_of_filtered(filter, raw, prior, stride, x - stride);
    }
    let a = if stride >= 1 && x >= stride {
        raw[x - stride] as int
    } else {
        0
    };
    let b = above(prior, x);
    let c = if stride >= 1 {
        above(prior, x - stride)
    } else {
        0
    };
    let predicted = prediction(filter, a, b, c);
    assert(line[x] == filter_byte(filter, raw, prior, stride, x));
    assert(line[x] as int == (raw[x] - predicted) % 256);
    assert(recon_byte(filter, line, prior, stride, x) as int == (line[x] + predicted) % 256);
    lemma_take_and_add(raw[x] as int, predicted);
}

/// Filtering a line with any filter type and undoing the filter gives the line back.
pub proof fn lemma_unfilter_inverts_filter(filter: u8, raw: Seq<u8>, prior: Seq<u8>, stride: int)
    ensures
        unfiltered(filter, filtered(filter, raw, prior, stride), prior, stride) == raw,
{
    let line = filtered(filter, raw, prior, stride);
    assert forall|x: int| 0 <= x < raw.len() implies unfiltered(filter, line, prior, stride)[x]
        == raw[x] by {
        lemma_recon_of_filtered(filter, raw, prior, stride, x);
    }
    assert(unfiltered(filter, line, prior, stride) =~= raw);
}

/// Undoing a filter and applying it again gives the filtered line back.
pub proof fn lemma_filter_inverts_unfilter(filter: u8, line: Seq<u8>, prior: Seq<u8>, stride: int)
    ensures
        filtered(filter, unfiltered(filter, line, prior, stride), prior, stride) == line,
{
    let raw = unfiltered(filter, line, prior, stride);
    assert forall|x: int| 0 <= x < line.len() implies filter_byte(filter, raw, prior, stride, x)
        == line[x] by {
        let a = if stride >= 1 && x >= stride {
            raw[x - stride] as int
        } else {
            0
        };
        let b = above(prior, x);
        let c = if stride >= 1 {
            above(prior, x - stride)
        } else {
            0
        };
        let predicted = prediction(filter, a, b, c);
        assert(raw[x] == recon_byte(filter, line, prior, stride, x));
        assert(raw[x] as int == (line[x] + predicted) % 256);
        lemma_take_and_add(line[x] as int, predicted);
    }
    assert(filtered(filter, raw, prior, stride) =~= line);
}

/// The Paeth predictor of three bytes.
pub fn paeth(a: u8, b: u8, c: u8) -> (nearest: u8)
    ensures
        nearest == paeth_predictor(a as int, b as int, c as int),
{
    let p: i32 = a as i32 + b as i32 - c as i32;
    let pa: i32 = if p >= a as i32 {
        p - a as i32
    } else {
        a as i32 - p
    };
    let pb: i32 = if p >= b as i32 {
        p - b as i32
    } else {
        b as i32 - p
    };
    let pc: i32 = if p >= c as i32 {
        p - c as i32
    } else {
        c as i32 - p
    };
    if pa <= pb && pa <= pc {
        a
    } else if pb <= pc {
        b
    } else {
        c
    }
}

/// What the filter type predicts from three bytes.
fn predict(filter: u8, a: u8, b: u8, c: u8) -> (predicted: u8)
    ensures
        predicted == prediction(filter, a as int, b as int, c as int),
{
    reveal(prediction);
    if filter == 1 {
        a
    } else if filter == 2 {
        b
    } else if filter == 3 {
        ((a as u16 + b as u16) / 2) as u8
    } else if filter == 4 {
        paeth(a, b, c)
    } else {
        0
    }
}

fn byte_above(prior: &[u8], x: usize) -> (b: u8)
    ensures
        b == above(prior@, x as int),
{
    if x < prior.len() {
        prior[x]
    } else {
        0
    }
}

/// Undoes the filter of one scanline. `prior` is the reconstructed line above,
/// empty for the first line; `stride` is the number of bytes from a pixel to
/// the next. A filter type above four is refused.
pub fn unfilter_scanline(filter: u8, line: &[u8], prior: &[u8], stride: usize) -> (recon: Result<
    Vec<u8>,
    EncoderError,
>)
    ensures
        viewed(recon) == unfiltering(filter, line@, prior@, stride as int),
{
    if filter > MAX_FILTER_TYPE {
        return Err(EncoderError::invalid_data("Invalid filter type"));
    }
    let mut recon: Vec<u8> = Vec::new();
    let mut x: usize = 0;
    while x < line.len()
        invariant
            x <= line@.len(),
            recon@.len() == x,
            forall|k: int|
                0 <= k < x ==> recon@[k] == #[trigger] recon_byte(
                    filter,
                    line@,
                    prior@,
                    stride as int,
                    k,
                ),
        decreases line@.len() - x,
    {
        let a: u8 = if stride >= 1 && x >= stride {
            recon[x - stride]
        } else {
            0
        };
        let b: u8 = byte_above(prior, x);
        let c: u8 = if stride >= 1 && x >= stride {
            byte_above(prior, x - stride)
        } else {
            0
        };
        let predicted = predict(filter, a, b, c);
        let byte: u8 = ((line[x] as u16 + predicted as u16) % 256) as u8;
        assert(stride >= 1 && x >= stride ==> a == recon_byte(
            filter,
            line@,
            prior@,
            stride as int,
            x - stride,
        ));
        assert(byte == recon_byte(filter, line@, prior@, stride as int, x as int));
        recon.push(byte);
        x = x + 1;
    }
    assert(recon@ =~= unfiltered(filter, line@, prior@, stride as int));
    Ok(recon)
}

/// Filters one raw scanline. `prior` is the raw line above, empty for the
/// first line. A filter type above four is refused.
pub fn filter_scanline(filter: u8, raw: &[u8], prior: &[u8], stride: usize) -> (line: Result<
    Vec<u8>,
    EncoderError,
>)
    ensures
        viewed(line) == filtering(filter, raw@, prior@, stride as int),
{
    if filter > MAX_FILTER_TYPE {
        return Err(EncoderError::invalid_data("Invalid filter type"));
    }
    let mut line: Vec<u8> = Vec::new();
    let mut x: usize = 0;
    while x < raw.len()
        invariant
            x <= raw@.len(),
            line@.len() == x,
            forall|k: int|
                0 <= k < x ==> line@[k] == #[trigger] filter_byte(
                    filter,
                    raw@,
                    prior@,
                    stride as int,
                    k,
                ),
        decreases raw@.len() - x,
    {
        let a: u8 = if stride >= 1 && x >= stride {
            raw[x - stride]
        } else {
            0
        };
        let b: u8 = byte_above(prior, x);
        let c: u8 = if stride >= 1 && x >= stride {
            byte_above(prior, x - stride)
        } else {
            0
        };
        let predicted = predict(filter, a, b, c);
        let byte: u8 = ((raw[x] as u16 + 256 - predicted as u16) % 256) as u8;
        assert(byte == filter_byte(filter, raw@, prior@, stride as int, x as int));
        line.push(byte);
        x = x + 1;
    }
    assert(line@ =~= filtered(filter, raw@, prior@, stride as int));
    Ok(line)
}

/// Where line `i` starts in a block of scanlines that starts at `start`: each
/// line is one filter byte and `width` bytes of data.
pub open spec fn block_line_start(start: int, width: int, i: int) -> int {
    start + i * (width + 1)
}

/// The filter type of line `i` of a block.
pub open spec fn block_filter(data: Seq<u8>, start: int, width: int, i: int) -> u8 {
    data[block_line_start(start, width, i)]
}

/// The first `lines` lines of a block have filter types that there are.
pub open spec fn block_filters_known(data: Seq<u8>, start: int, width: int, lines: int) -> bool {
    forall|i: int| 0 <= i < lines ==> #[trigger] block_filter(data, start, width, i) <= MAX_FILTER_TYPE
}

/// The reconstructed line `i` of a block. The line above the first line is
/// empty, so that every byte above reads as zero.
pub open spec fn block_line(data: Seq<u8>, start: int, width: int, stride: int, i: int) -> Seq<u8>
    decreases i,
{
    if i < 0 {
        Seq::empty()
    } else {
        let at = block_line_start(start, width, i);
        let prior = if i == 0 {
            Seq::empty()
        } else {
            block_line(data, start, width, stride, i - 1)
        };
        unfiltered(data[at], data.subrange(at + 1, at + 1 + width), prior, stride)
    }
}

/// The sequences that a sequence of vectors holds.
pub open spec fn line_views(lines: Seq<Vec<u8>>) -> Seq<Seq<u8>> {
    Seq::new(lines.len(), |i: int| lines[i]@)
}

/// The failure for a block of scanlines that the data does not hold the whole of.
pub open spec fn block_beyond_data() -> Failure {
    Failure::InvalidData("Invalid scanline length"@)
}

/// The reconstructed lines of a block, or the failure: the data does not hold
/// the whole block, or else a line has a filter type that there is not.
pub open spec fn block_lines(data: Seq<u8>, start: int, width: int, stride: int, lines: int) -> Result<
    Seq<Seq<u8>>,
    Failure,
> {
    if start + lines * (width + 1) > data.len() {
        Err(block_beyond_data())
    } else if block_filters_known(data, start, width, lines) {
        Ok(Seq::new(lines as nat, |i: int| block_line(data, start, width, stride, i)))
    } else {
        Err(invalid_filter_type())
    }
}

/// Line `i` of a block lies within the block.
proof fn lemma_block_line_within(start: int, width: int, lines: int, i: int)
    by (nonlinear_arith)
    requires
        0 <= i < lines,
        0 <= width,
    ensures
        start <= block_line_start(start, width, i),
        block_line_start(start, width, i) + width + 1 == block_line_start(start, width, i + 1),
        block_line_start(start, width, i + 1) <= start + lines * (width + 1),
{
}

/// Whether data of the given length holds a whole block.
fn block_fits(length: usize, start: usize, width: usize, lines: usize) -> (fits: bool)
    ensures
        fits == (start + lines * (width + 1) <= length),
{
    if start > length {
        assert(lines * (width + 1) >= 0) by (nonlinear_arith)
            requires
                lines >= 0,
                width >= 0,
        ;
        return false;
    }
    if lines == 0 {
        assert(lines * (width + 1) == 0) by (nonlinear_arith)
            requires
                lines == 0,
        ;
        return true;
    }
    // Each line takes a byte at least, so more lines than bytes cannot fit.
    let left: usize = length - start;
    if width >= left || lines > left {
        assert(lines * (width + 1) > left) by (nonlinear_arith)
            requires
                lines >= 1,
                width >= left || lines > left,
                width >= 0,
        ;
        return false;
    }
    assert(lines * (width + 1) <= 0xFFFF_FFFF_FFFF_FFFF * 0xFFFF_FFFF_FFFF_FFFF)
        by (nonlinear_arith)
        requires
            0 <= lines <= 0xFFFF_FFFF_FFFF_FFFF,
            0 <= width + 1 <= 0xFFFF_FFFF_FFFF_FFFF,
    ;
    let needed: u128 = lines as u128 * (width as u128 + 1);
    needed <= left as u128
}

/// Reconstructs a block of `lines` scanlines that starts at `start`, each one
/// filter byte and `width` bytes of data, every line from the one before it.
pub fn reconstruct_block(data: &[u8], start: usize, width: usize, lines: usize, stride: usize) -> (block:
    Result<Vec<Vec<u8>>, EncoderError>)
    ensures
        match block {
            Ok(list) => block_lines(data@, start as int, width as int, stride as int, lines as int)
                == Ok::<Seq<Seq<u8>>, Failure>(line_views(list@)),
            Err(e) => block_lines(data@, start as int, width as int, stride as int, lines as int)
                == Err::<Seq<Seq<u8>>, Failure>(e@),
        },
{
    if !block_fits(data.len(), start, width, lines) {
        return Err(EncoderError::invalid_data("Invalid scanline length"));
    }
    let mut block: Vec<Vec<u8>> = Vec::new();
    let first: Vec<u8> = Vec::new();
    let mut at: usize = start;
    let mut i: usize = 0;
    while i < lines
        invariant
            i <= lines,
            start + lines * (width + 1) <= data@.len(),
            at == block_line_start(start as int, width as int, i as int),
            first@.len() == 0,
            block@.len() == i,
            forall|k: int|
                0 <= k < i ==> #[trigger] block_filter(data@, start as int, width as int, k)
                    <= MAX_FILTER_TYPE,
            forall|k: int|
                0 <= k < i ==> (#[trigger] block@[k])@ == block_line(
                    data@,
                    start as int,
                    width as int,
                    stride as int,
                    k,
                ),
        decreases lines - i,
    {
        proof {
            lemma_block_line_within(start as int, width as int, lines as int, i as int);
        }
        let filter = data[at];
        let line = slice_subrange(data, at + 1, at + 1 + width);
        let prior: &[u8] = if i == 0 {
            first.as_slice()
        } else {
            block[i - 1].as_slice()
        };
        assert(prior@ =~= block_line(data@, start as int, width as int, stride as int, i - 1));
        let recon = match unfilter_scanline(filter, line, prior, stride) {
            Ok(recon) => recon,
            Err(e) => {
                assert(block_filter(data@, start as int, width as int, i as int) > MAX_FILTER_TYPE);
                return Err(e);
            },
        };
        assert(block_filter(data@, start as int, width as int, i as int) <= MAX_FILTER_TYPE);
        block.push(recon);
        at = at + 1 + width;
        i = i + 1;
    }
    assert(line_views(block@) =~= Seq::new(
        lines as nat,
        |i: int| block_line(data@, start as int, width as int, stride as int, i),
    ));
    Ok(block)
}

} // verus!

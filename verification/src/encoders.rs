//! What every image format offers, and the two kinds of failure a decode can
//! end in.

use vstd::prelude::*;
use vstd::string::*;
use crate::pixel::{ImageData, Picture};
use crate::png::{decoding, PNG};

verus! {

/// Why a byte stream could not be decoded.
#[derive(Debug)]
pub enum EncoderError {
    /// The stream is malformed or does not conform to the format.
    InvalidData(String),
    /// The image's dimensions, or the placement of its image data, are not acceptable.
    InvalidImageDimensions(String),
}

/// The mathematical value of an `EncoderError`: its kind and the text of its reason.
pub enum Failure {
    /// The stream is malformed or does not conform to the format.
    InvalidData(Seq<char>),
    /// The image's dimensions, or the placement of its image data, are not acceptable.
    InvalidImageDimensions(Seq<char>),
}

impl Failure {
    /// The reason given.
    pub open spec fn reason(self) -> Seq<char> {
        match self {
            Failure::InvalidData(reason) => reason,
            Failure::InvalidImageDimensions(reason) => reason,
        }
    }
}

/// A result with its failure, if it is one, taken as a mathematical value.
pub open spec fn outcome<T>(result: Result<T, EncoderError>) -> Result<T, Failure> {
    match result {
        Ok(value) => Ok(value),
        Err(e) => Err(e@),
    }
}

/// A result with both its value and its failure taken as mathematical values.
pub open spec fn viewed<T: View>(result: Result<T, EncoderError>) -> Result<T::V, Failure> {
    match result {
        Ok(value) => Ok(value@),
        Err(e) => Err(e@),
    }
}

impl View for EncoderError {
    type V = Failure;

    open spec fn view(&self) -> Failure {
        match self {
            EncoderError::InvalidData(message) => Failure::InvalidData(message@),
            EncoderError::InvalidImageDimensions(message) => Failure::InvalidImageDimensions(
                message@,
            ),
        }
    }
}

impl EncoderError {
    /// The reason given for the failure.
    pub fn message(&self) -> (text: &str)
        ensures
            text@ == self@.reason(),
    {
        match self {
            EncoderError::InvalidImageDimensions(message) => message.as_str(),
            EncoderError::InvalidData(message) => message.as_str(),
        }
    }

    /// An `InvalidData` failure with the given reason.
    pub fn invalid_data(reason: &str) -> (e: EncoderError)
        ensures
            e@ == Failure::InvalidData(reason@),
    {
        EncoderError::InvalidData(String::from_str(reason))
    }

    /// An `InvalidImageDimensions` failure with the given reason.
    pub fn invalid_dimensions(reason: &str) -> (e: EncoderError)
        ensures
            e@ == Failure::InvalidImageDimensions(reason@),
    {
        EncoderError::InvalidImageDimensions(String::from_str(reason))
    }
}

/// An image format: it tells its own data from other data, and turns data
/// into pictures and pictures into data.
pub trait Encodable {
    /// Whether the data is in this format.
    spec fn recognises(&self, data: Seq<u8>) -> bool;

    /// The picture that the data holds, or why it holds none.
    spec fn decoded(&self, data: Seq<u8>) -> Result<Picture, Failure>;

    /// The data that holds the picture, or why there is none.
    spec fn encoded(&self, image: Picture) -> Result<Seq<u8>, Failure>;

    /// Whether the data is in this format.
    fn data_matches_format(&self, data: &[u8]) -> (matches: bool)
        ensures
            matches == self.recognises(data@),
    ;

    /// Writes the picture out in this format, or says why it cannot.
    fn encode(&self, data: &ImageData) -> (bytes: Result<Vec<u8>, EncoderError>)
        ensures
            viewed(bytes) == self.encoded(data@),
    ;

    /// Reads the picture that the data holds.
    fn decode(&self, data: &[u8]) -> (image: Result<ImageData, EncoderError>)
        ensures
            viewed(image) == self.decoded(data@),
    ;
}

/// Decoding is a function of the bytes: two decodes of equal data end alike,
/// in equal pictures or in equal failures.
pub proof fn lemma_decode_is_deterministic<E: Encodable>(
    format: E,
    first_data: Seq<u8>,
    second_data: Seq<u8>,
    first: Result<ImageData, EncoderError>,
    second: Result<ImageData, EncoderError>,
)
    requires
        first_data == second_data,
        viewed(first) == format.decoded(first_data),
        viewed(second) == format.decoded(second_data),
    ensures
        viewed(first) == viewed(second),
        first matches Ok(a) ==> second matches Ok(b) && a.width == b.width && a.height == b.height
            && a.pixels@ == b.pixels@,
        first matches Err(a) ==> second matches Err(b) && a@ == b@,
{
}

/// The decoder for every format that is known: at present PNG alone.
pub struct Encoder {}

impl Encoder {
    /// A decoder.
    pub fn new() -> Encoder {
        Encoder {  }
    }

    /// Decodes a PNG file into its picture.
    pub fn decode(data: &[u8]) -> (image: Result<ImageData, EncoderError>)
        ensures
            viewed(image) == decoding(data@),
            image matches Ok(picture) ==> picture.pixels@.len() == picture.width * picture.height,
    {
        let decoder = PNG {  };
        decoder.decode(data)
    }
}

} // verus!

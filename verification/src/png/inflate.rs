//! Inflation of the compressed image data.

use vstd::prelude::*;
use vstd::string::*;
use miniz_oxide::inflate::TINFLStatus;
use crate::encoders::{EncoderError, Failure};

verus! {

/// How an inflation ended that did not give the data back.
#[derive(Debug, Clone, Copy, PartialEq, Eq, Structural)]
pub enum InflateStatus {
    /// More input was expected than there is: the stream is truncated.
    FailedCannotMakeProgress,
    /// The output buffer has an invalid size.
    BadParam,
    /// The checksum of the inflated data is not the one the stream gives.
    Adler32Mismatch,
    /// The input is not a valid stream.
    Failed,
    /// The end of the stream was reached.
    Done,
    /// The inflater needs more input to go on.
    NeedsMoreInput,
    /// There is more output than the buffer takes.
    HasMoreOutput,
}

impl InflateStatus {
    /// The name of the status.
    pub open spec fn name(self) -> Seq<char> {
        match self {
            InflateStatus::FailedCannotMakeProgress => "FailedCannotMakeProgress"@,
            InflateStatus::BadParam => "BadParam"@,
            InflateStatus::Adler32Mismatch => "Adler32Mismatch"@,
            InflateStatus::Failed => "Failed"@,
            InflateStatus::Done => "Done"@,
            InflateStatus::NeedsMoreInput => "NeedsMoreInput"@,
            InflateStatus::HasMoreOutput => "HasMoreOutput"@,
        }
    }

    /// The failure that a decode ends in when inflation ends with this status.
    pub open spec fn failure(self) -> Failure {
        Failure::InvalidData("Decompress error: "@ + self.name())
    }

    /// The name of the status.
    pub fn as_str(&self) -> (name: &'static str)
        ensures
            name@ == self.name(),
    {
        match self {
            InflateStatus::FailedCannotMakeProgress => "FailedCannotMakeProgress",
            InflateStatus::BadParam => "BadParam",
            InflateStatus::Adler32Mismatch => "Adler32Mismatch",
            InflateStatus::Failed => "Failed",
            InflateStatus::Done => "Done",
            InflateStatus::NeedsMoreInput => "NeedsMoreInput",
            InflateStatus::HasMoreOutput => "HasMoreOutput",
        }
    }

    /// The failure that a decode ends in when inflation ends with this status.
    pub fn to_error(&self) -> (e: EncoderError)
        ensures
            e@ == self.failure(),
    {
        let mut message = String::from_str("Decompress error: ");
        message.append(self.as_str());
        EncoderError::InvalidData(message)
    }
}

/// What inflating a zlib stream gives: the data, or the status the inflater
/// stopped with.
pub uninterp spec fn zlib_inflated(stream: Seq<u8>) -> Result<Seq<u8>, InflateStatus>;

/// Calls `miniz_oxide::inflate::decompress_to_vec_zlib`. The contract names what
/// that function returns for the given stream: the inflated bytes, or the
/// status carried by its error. Nothing more is claimed of it.
#[verifier::external_body]
pub(crate) fn inflate_zlib(stream: &[u8]) -> (inflated: Result<Vec<u8>, InflateStatus>)
    ensures
        match inflated {
            Ok(bytes) => zlib_inflated(stream@) == Ok::<Seq<u8>, InflateStatus>(bytes@),
            Err(status) => zlib_inflated(stream@) == Err::<Seq<u8>, InflateStatus>(status),
        },
{
    match miniz_oxide::inflate::decompress_to_vec_zlib(stream) {
        Ok(bytes) => Ok(bytes),
        Err(e) => Err(match e.status {
            TINFLStatus::FailedCannotMakeProgress => InflateStatus::FailedCannotMakeProgress,
            TINFLStatus::BadParam => InflateStatus::BadParam,
            TINFLStatus::Adler32Mismatch => InflateStatus::Adler32Mismatch,
            TINFLStatus::Failed => InflateStatus::Failed,
            TINFLStatus::Done => InflateStatus::Done,
            TINFLStatus::NeedsMoreInput => InflateStatus::NeedsMoreInput,
            TINFLStatus::HasMoreOutput => InflateStatus::HasMoreOutput,
        }),
    }
}

} // verus!

//! The ways in which a request can fail.

use vstd::prelude::*;

verus! {

/// Why a request was abandoned. Every kind ends the request: nothing is
/// retried and no partial image is handed out.
#[derive(Clone, Copy, Debug, PartialEq, Eq, Structural)]
pub enum IconError {
    /// An identifier is malformed or has the wrong number of hex digits.
    InvalidIdentifier,
    /// The scale factor is not a whole number from 1 to 8.
    InvalidScale,
    /// A background or effect name is not in the name table.
    InvalidSymbolicName,
    /// The catalog holds no record under a canonical id.
    RecordNotFound,
    /// The catalog or the archive could not be read, or the archive had no data.
    FetchFailure,
    /// The bytes read for a record are not one 32x32 RGBA raster.
    DecodeFailure,
    /// Resampling or PNG encoding failed, or was asked of an image that is
    /// empty, too large, or has the wrong number of bytes for its size.
    EncodeFailure,
}

impl IconError {
    /// The HTTP status that reports this error.
    pub open spec fn spec_status(self) -> u16 {
        match self {
            IconError::InvalidIdentifier => 400,
            IconError::InvalidScale => 400,
            IconError::InvalidSymbolicName => 400,
            IconError::RecordNotFound => 404,
            IconError::FetchFailure => 500,
            IconError::DecodeFailure => 500,
            IconError::EncodeFailure => 500,
        }
    }

    /// The HTTP status that reports this error: 400 for a bad request, 404
    /// for a missing record, 500 for a failure behind the service.
    #[verifier::when_used_as_spec(spec_status)]
    pub fn status(self) -> (code: u16)
        ensures
            code == self.spec_status(),
    {
        match self {
            IconError::InvalidIdentifier => 400,
            IconError::InvalidScale => 400,
            IconError::InvalidSymbolicName => 400,
            IconError::RecordNotFound => 404,
            IconError::FetchFailure => 500,
            IconError::DecodeFailure => 500,
            IconError::EncodeFailure => 500,
        }
    }

    /// A short diagnostic for the response body.
    pub fn message(self) -> (text: &'static str)
        ensures
            text@ == self.spec_message(),
    {
        match self {
            IconError::InvalidIdentifier => "Invalid identifier. Give a decimal number, or 4 or 8 hex digits after 0x.",
            IconError::InvalidScale => "Choose a scale value between 1 and 8",
            IconError::InvalidSymbolicName => "Unknown background or effect name.",
            IconError::RecordNotFound => "Failed to get file",
            IconError::FetchFailure => "Failed to read the archive.",
            IconError::DecodeFailure => "The record is not a 32x32 RGBA texture.",
            IconError::EncodeFailure => "Failed to encode the image.",
        }
    }

    /// The text of [`IconError::message`].
    pub open spec fn spec_message(self) -> Seq<char> {
        match self {
            IconError::InvalidIdentifier => "Invalid identifier. Give a decimal number, or 4 or 8 hex digits after 0x."@,
            IconError::InvalidScale => "Choose a scale value between 1 and 8"@,
            IconError::InvalidSymbolicName => "Unknown background or effect name."@,
            IconError::RecordNotFound => "Failed to get file"@,
            IconError::FetchFailure => "Failed to read the archive."@,
            IconError::DecodeFailure => "The record is not a 32x32 RGBA texture."@,
            IconError::EncodeFailure => "Failed to encode the image."@,
        }
    }
}

} // verus!

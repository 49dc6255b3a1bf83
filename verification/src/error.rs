//! The ways in which a request can fail.

use vstd::prelude::*;

verus! {

/// Why a request was not answered with an image. Every failure ends the
/// request that met it; nothing is retried.
#[derive(Clone, Copy, Debug, PartialEq, Eq, Structural)]
pub enum Error {
    /// The path segment that describes the operations could not be decoded.
    DecodeSpec,
    /// The source address is not an absolute URL.
    InvalidUrl,
    /// The source could not be fetched: the transport failed, the status was
    /// not a success, or the body could not be read.
    Fetch,
    /// The fetched bytes are not an image that the engine can hold.
    ImageDecode,
    /// The operation at `index` of the list cannot be applied to the image
    /// that the operations before it leave.
    Operation { index: usize },
    /// The result could not be written in the requested format.
    Encode,
}

/// What the fetch of a source reports when it fails, whatever the cause:
/// the transport, a status that is no success, or a body that could not be
/// read.
#[derive(Clone, Copy, Debug, PartialEq, Eq, Structural)]
pub struct FetchError {}

/// What the decoder of the operations' path segment reports when it fails.
#[derive(Clone, Copy, Debug, PartialEq, Eq, Structural)]
pub struct DecodeSpecError {}

/// The class of response that a request ends with.
#[derive(Clone, Copy, Debug, PartialEq, Eq, Structural)]
pub enum Status {
    Success,
    BadRequest,
    InternalServerError,
}

impl Status {
    /// The numeric status code.
    pub open spec fn spec_code(self) -> u16 {
        match self {
            Status::Success => 200,
            Status::BadRequest => 400,
            Status::InternalServerError => 500,
        }
    }

    #[verifier::when_used_as_spec(spec_code)]
    pub fn code(self) -> (code: u16)
        ensures
            code == self.spec_code(),
    {
        match self {
            Status::Success => 200,
            Status::BadRequest => 400,
            Status::InternalServerError => 500,
        }
    }
}

impl Error {
    /// The response class of a failure: what goes wrong before the source
    /// is in hand is a bad request, what goes wrong after it is a server
    /// error.
    pub open spec fn spec_status(self) -> Status {
        match self {
            Error::DecodeSpec => Status::BadRequest,
            Error::InvalidUrl => Status::BadRequest,
            Error::Fetch => Status::BadRequest,
            Error::ImageDecode => Status::InternalServerError,
            Error::Operation { .. } => Status::InternalServerError,
            Error::Encode => Status::InternalServerError,
        }
    }

    #[verifier::when_used_as_spec(spec_status)]
    pub fn status(self) -> (status: Status)
        ensures
            status == self.spec_status(),
            status != Status::Success,
    {
        match self {
            Error::DecodeSpec => Status::BadRequest,
            Error::InvalidUrl => Status::BadRequest,
            Error::Fetch => Status::BadRequest,
            Error::ImageDecode => Status::InternalServerError,
            Error::Operation { .. } => Status::InternalServerError,
            Error::Encode => Status::InternalServerError,
        }
    }
}

} // verus!

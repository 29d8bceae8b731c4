//! How a request fails.

use vstd::prelude::*;

verus! {

/// A failure that is handed back to the caller of a request.
#[derive(Clone, Copy, Debug, PartialEq, Eq, Structural)]
pub enum HttpError {
    /// The URL lacks a delimiter, or its port is no port number.
    MalformedUrl,
    /// The connection could not be set up, or the request not be written.
    ConnectionError,
    /// The status line, a header, the chunk framing or the compressed body
    /// is not what it has to be.
    MalformedResponse,
    /// The content coding is unknown, or known and not decoded here.
    UnsupportedEncoding,
}

impl HttpError {
    /// The error in words.
    pub fn message(&self) -> (text: &'static str)
        ensures
            text@ == match *self {
                HttpError::MalformedUrl => "Malformed URL"@,
                HttpError::ConnectionError => "Connection error"@,
                HttpError::MalformedResponse => "Malformed response"@,
                HttpError::UnsupportedEncoding => "Unsupported encoding"@,
            },
    {
        match self {
            HttpError::MalformedUrl => "Malformed URL",
            HttpError::ConnectionError => "Connection error",
            HttpError::MalformedResponse => "Malformed response",
            HttpError::UnsupportedEncoding => "Unsupported encoding",
        }
    }
}

/// The bytes of a buffer that came with or without an error.
pub open spec fn outcome(r: Result<Vec<u8>, HttpError>) -> Result<Seq<u8>, HttpError> {
    match r {
        Ok(bytes) => Ok(bytes@),
        Err(e) => Err(e),
    }
}

/// A failure that ends the request for good: the caller is expected to give
/// up with the diagnostic, not to handle it.
#[derive(Debug, PartialEq, Eq)]
pub enum Fatal {
    /// The URL names a scheme other than `http`, `https` and `data`.
    UnknownScheme { scheme: Vec<u8> },
    /// The server answered with a status other than 200.
    Status { code: Vec<u8>, reason: Vec<u8> },
    /// The response names a transfer coding other than `chunked`.
    TransferEncoding { value: Vec<u8> },
}

/// A `Fatal` as plain values.
pub enum FatalView {
    UnknownScheme { scheme: Seq<u8> },
    Status { code: Seq<u8>, reason: Seq<u8> },
    TransferEncoding { value: Seq<u8> },
}

impl View for Fatal {
    type V = FatalView;

    open spec fn view(&self) -> FatalView {
        match *self {
            Fatal::UnknownScheme { scheme } => FatalView::UnknownScheme { scheme: scheme@ },
            Fatal::Status { code, reason } => FatalView::Status { code: code@, reason: reason@ },
            Fatal::TransferEncoding { value } => FatalView::TransferEncoding { value: value@ },
        }
    }
}

} // verus!

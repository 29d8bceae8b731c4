//! Content codings: their names, and how a body is decoded.

use std::io::Read;
use vstd::prelude::*;
use vstd::slice::slice_to_vec;
use vstd::string::StringSliceAdditionalSpecFns;
use crate::bytes::{eq_ignore_case, optional, same_ignoring_case};
use crate::http::error::{outcome, HttpError};

verus! {

/// The content codings that have a name here. `Compress` and `Brotli` are
/// known by name only: no body in them is decoded.
#[derive(Clone, Copy, Debug, PartialEq, Eq, Structural)]
pub enum ContentEncoding {
    Gzip,
    Compress,
    Deflate,
    Identity,
    Brotli,
}

/// A name that is no content coding's.
#[derive(Clone, Copy, Debug, PartialEq, Eq, Structural)]
pub struct EncodingError;

/// The coding that `name` stands for, in either case of its letters.
pub open spec fn coding_named(name: Seq<u8>) -> Option<ContentEncoding> {
    if same_ignoring_case("gzip".spec_bytes(), name) {
        Some(ContentEncoding::Gzip)
    } else if same_ignoring_case("compress".spec_bytes(), name) {
        Some(ContentEncoding::Compress)
    } else if same_ignoring_case("deflate".spec_bytes(), name) {
        Some(ContentEncoding::Deflate)
    } else if same_ignoring_case("identity".spec_bytes(), name) {
        Some(ContentEncoding::Identity)
    } else if same_ignoring_case("br".spec_bytes(), name) {
        Some(ContentEncoding::Brotli)
    } else {
        None
    }
}

/// Whether a body in `coding` is decoded here.
pub open spec fn is_decoded_here(coding: ContentEncoding) -> bool {
    coding != ContentEncoding::Compress && coding != ContentEncoding::Brotli
}

/// What a gzip stream decompresses to, where it is one without fault.
pub uninterp spec fn gzip_decoded(data: Seq<u8>) -> Option<Seq<u8>>;

/// What a raw DEFLATE stream decompresses to, where it is one without fault.
pub uninterp spec fn deflate_decoded(data: Seq<u8>) -> Option<Seq<u8>>;

/// The bytes that `raw` stands for in `coding`: `raw` itself under
/// `Identity`, what the decompressor makes of it under `Gzip` and `Deflate`,
/// and none under `Compress` and `Brotli`, of which nothing is handed out.
pub open spec fn decompressed(coding: ContentEncoding, raw: Seq<u8>) -> Option<Seq<u8>> {
    match coding {
        ContentEncoding::Identity => Some(raw),
        ContentEncoding::Gzip => gzip_decoded(raw),
        ContentEncoding::Deflate => deflate_decoded(raw),
        ContentEncoding::Compress | ContentEncoding::Brotli => None,
    }
}

/// The body that `raw` holds in `coding`, given what the decompressor made
/// of it: unchanged under `Identity`, decompressed under `Gzip` and `Deflate`
/// (a fault in the stream is a malformed response), and never under `Compress`
/// and `Brotli`.
pub open spec fn decoded_from(coding: ContentEncoding, outcome: Option<Seq<u8>>) -> Result<
    Seq<u8>,
    HttpError,
> {
    if !is_decoded_here(coding) {
        Err(HttpError::UnsupportedEncoding)
    } else {
        match outcome {
            Some(body) => Ok(body),
            None => Err(HttpError::MalformedResponse),
        }
    }
}

/// The body that `raw` holds in `coding`.
pub open spec fn decoded(coding: ContentEncoding, raw: Seq<u8>) -> Result<Seq<u8>, HttpError> {
    decoded_from(coding, decompressed(coding, raw))
}

impl ContentEncoding {
    /// The coding that the bytes `name` stand for.
    pub fn from_bytes(name: &[u8]) -> (r: Result<ContentEncoding, EncodingError>)
        ensures
            match r {
                Ok(coding) => coding_named(name@) == Some(coding),
                Err(_) => coding_named(name@) is None,
            },
    {
        if eq_ignore_case("gzip".as_bytes(), name) {
            Ok(ContentEncoding::Gzip)
        } else if eq_ignore_case("compress".as_bytes(), name) {
            Ok(ContentEncoding::Compress)
        } else if eq_ignore_case("deflate".as_bytes(), name) {
            Ok(ContentEncoding::Deflate)
        } else if eq_ignore_case("identity".as_bytes(), name) {
            Ok(ContentEncoding::Identity)
        } else if eq_ignore_case("br".as_bytes(), name) {
            Ok(ContentEncoding::Brotli)
        } else {
            Err(EncodingError)
        }
    }

    /// The coding that `name` stands for.
    pub fn from_str(name: &str) -> (r: Result<ContentEncoding, EncodingError>)
        ensures
            match r {
                Ok(coding) => coding_named(name.spec_bytes()) == Some(coding),
                Err(_) => coding_named(name.spec_bytes()) is None,
            },
    {
        ContentEncoding::from_bytes(name.as_bytes())
    }

    /// Whether a body in this coding can be decoded.
    pub fn is_supported(&self) -> (supported: bool)
        ensures
            supported == is_decoded_here(*self),
    {
        match self {
            ContentEncoding::Compress | ContentEncoding::Brotli => false,
            _ => true,
        }
    }
}

/// Runs `flate2::bufread::GzDecoder` over `data` to the end of the stream.
/// Trusted: the outcome is a function of `data` alone, named `gzip_decoded`;
/// `None` stands for any error that the decoder reports.
#[verifier::external_body]
fn gunzip(data: &[u8]) -> (out: Option<Vec<u8>>)
    ensures
        optional(out) == gzip_decoded(data@),
{
    let mut body = Vec::new();
    match flate2::bufread::GzDecoder::new(data).read_to_end(&mut body) {
        Ok(_) => Some(body),
        Err(_) => None,
    }
}

/// Runs `flate2::bufread::DeflateDecoder` over `data` to the end of the
/// stream. Trusted: the outcome is a function of `data` alone, named
/// `deflate_decoded`; `None` stands for any error that the decoder reports.
#[verifier::external_body]
fn inflate(data: &[u8]) -> (out: Option<Vec<u8>>)
    ensures
        optional(out) == deflate_decoded(data@),
{
    let mut body = Vec::new();
    match flate2::bufread::DeflateDecoder::new(data).read_to_end(&mut body) {
        Ok(_) => Some(body),
        Err(_) => None,
    }
}

/// Decompresses `raw` where `coding` asks for it. Under `Compress` and
/// `Brotli` nothing comes back, whatever `raw` holds; under `Gzip` and
/// `Deflate` nothing comes back from a stream with a fault.
pub fn decompress(coding: ContentEncoding, raw: &[u8]) -> (out: Option<Vec<u8>>)
    ensures
        optional(out) == decompressed(coding, raw@),
        !is_decoded_here(coding) ==> out is None,
        coding == ContentEncoding::Identity ==> out is Some,
{
    match coding {
        ContentEncoding::Identity => Some(slice_to_vec(raw)),
        ContentEncoding::Gzip => gunzip(raw),
        ContentEncoding::Deflate => inflate(raw),
        ContentEncoding::Compress | ContentEncoding::Brotli => None,
    }
}

/// The body for what the decompressor made of it under `coding`.
pub fn finish_decoding(coding: ContentEncoding, decompressed: Option<Vec<u8>>) -> (r: Result<
    Vec<u8>,
    HttpError,
>)
    ensures
        outcome(r) == decoded_from(coding, optional(decompressed)),
{
    if !coding.is_supported() {
        return Err(HttpError::UnsupportedEncoding);
    }
    match decompressed {
        Some(body) => Ok(body),
        None => Err(HttpError::MalformedResponse),
    }
}

/// Decodes a body: `Identity` leaves it as it is, `Gzip` and `Deflate`
/// decompress it, `Compress` and `Brotli` are refused.
pub fn decode(coding: ContentEncoding, raw: &[u8]) -> (r: Result<Vec<u8>, HttpError>)
    ensures
        outcome(r) == decoded(coding, raw@),
{
    if !coding.is_supported() {
        return Err(HttpError::UnsupportedEncoding);
    }
    finish_decoding(coding, decompress(coding, raw))
}

} // verus!

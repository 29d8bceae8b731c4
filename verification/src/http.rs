//! One HTTP/1.1 GET over a byte stream that the caller owns: URL parsing,
//! request framing, response parsing and body decoding.

pub mod error;
pub mod url;
pub mod headers;
pub mod encoding;
pub mod lines;
pub mod chunked;
pub mod response;
pub mod transport;
pub mod markup;

use vstd::prelude::*;
use vstd::string::StringSliceAdditionalSpecFns;
use crate::http::error::{Fatal, FatalView, HttpError};
use crate::http::headers::HeaderMap;
use crate::http::markup::{extracted, in_markup_after, latin1};
use crate::http::url::{
    has_known_scheme, known_scheme, parse, parsed, scheme_and_rest, scheme_name, ParsedUrl,
    ParsedUrlView,
};

verus! {

/// What a request starts with.
#[derive(Debug)]
pub enum Step {
    /// The URL ends the request for good.
    Abort(Fatal),
    /// The request is over without a connection: the answer that the URL
    /// itself holds, or the error in the URL.
    Finished(Result<(HeaderMap, Vec<u8>), HttpError>),
    /// The request goes to the host and the port of these parts.
    Connect(ParsedUrl),
}

/// A `Step` as plain values.
pub enum StepView {
    Abort(FatalView),
    Finished(Result<(Map<Seq<u8>, Seq<u8>>, Seq<u8>), HttpError>),
    Connect(ParsedUrlView),
}

impl View for Step {
    type V = StepView;

    open spec fn view(&self) -> StepView {
        match *self {
            Step::Abort(fatal) => StepView::Abort(fatal@),
            Step::Finished(Ok((headers, body))) => StepView::Finished(Ok((headers@, body@))),
            Step::Finished(Err(e)) => StepView::Finished(Err(e)),
            Step::Connect(parts) => StepView::Connect(parts@),
        }
    }
}

/// How a request for `url` starts. An unknown scheme ends it for good, a
/// malformed URL with an error. A `data` URL is answered by itself: its
/// content type is the one header, `content-type`, and its body the body.
/// Any other URL asks for a connection.
pub open spec fn first_step(url: Seq<u8>) -> StepView {
    if !has_known_scheme(url) {
        StepView::Abort(FatalView::UnknownScheme { scheme: scheme_and_rest(url).0 })
    } else {
        match parsed(url) {
            Err(e) => StepView::Finished(Err(e)),
            Ok(parts) => match parts.data_payload {
                Some((content_type, body)) => StepView::Finished(
                    Ok((map!["content-type".spec_bytes() => content_type], body)),
                ),
                None => StepView::Connect(parts),
            },
        }
    }
}

/// Starts a request. Nothing is sent or received here: where the step is
/// `Connect`, the caller opens the connection, sends what `write_request`
/// gives and hands what arrives to `respond`.
pub fn request(url: &str) -> (step: Step)
    ensures
        step@ == first_step(url.spec_bytes()),
        !has_known_scheme(url.spec_bytes()) ==> step is Abort,
        step matches Step::Connect(parts) ==> parts@.wf() && parts@.data_payload is None,
{
    if !known_scheme(url) {
        return Step::Abort(Fatal::UnknownScheme { scheme: scheme_name(url) });
    }
    match parse(url) {
        Err(e) => Step::Finished(Err(e)),
        Ok(parts) => {
            let ParsedUrl { scheme, host, port, path, data_payload } = parts;
            match data_payload {
                Some(payload) => {
                    let mut headers: HeaderMap = HeaderMap::new();
                    headers.insert(
                        vstd::slice::slice_to_vec("content-type".as_bytes()),
                        payload.content_type,
                    );
                    assert(headers@ =~= map!["content-type".spec_bytes() => payload.content_type@]);
                    Step::Finished(Ok((headers, payload.body)))
                },
                None => Step::Connect(ParsedUrl { scheme, host, port, path, data_payload: None }),
            }
        },
    }
}

/// `String::push`. Trusted: it appends the character and changes nothing
/// else.
pub assume_specification[ String::push ](text: &mut String, ch: char)
    ensures
        final(text)@ == old(text)@.push(ch),
;

/// The text of `body` without its markup: a `<` opens markup, a `>` closes
/// it, and every other byte outside markup becomes the character with its
/// number. Markup does not nest, and nothing is decoded.
pub fn lex(body: &[u8]) -> (text: String)
    ensures
        text@ == latin1(extracted(body@)),
{
    let mut in_angle: bool = false;
    let mut text: String = String::new();
    let mut i: usize = 0;
    while i < body.len()
        invariant
            i <= body@.len(),
            in_angle == in_markup_after(body@.take(i as int)),
            text@ == latin1(extracted(body@.take(i as int))),
        decreases body@.len() - i,
    {
        let c: u8 = body[i];
        proof {
            assert(body@.take(i + 1).drop_last() =~= body@.take(i as int));
            assert(body@.take(i + 1).last() == c);
        }
        if c == 0x3c {
            in_angle = true;
        } else if c == 0x3e {
            in_angle = false;
        } else if !in_angle {
            text.push(c as char);
            assert(text@ =~= latin1(extracted(body@.take(i + 1))));
        }
        i = i + 1;
    }
    assert(body@.take(i as int) =~= body@);
    text
}

} // verus!

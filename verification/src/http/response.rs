//! A response, read from the bytes that have arrived.

use vstd::prelude::*;
use vstd::slice::slice_to_vec;
use vstd::string::StringSliceAdditionalSpecFns;
use vstd::utf8::valid_utf8;
use crate::bytes::{
    eq_bytes, eq_ignore_case, lemma_lower_is_idempotent, lemma_trim_is_idempotent, lower, optional,
    same_ignoring_case, trim,
};
use crate::http::chunked::{chunks, dechunk, lemma_chunks_are_final, Dechunked, DechunkedView};
use crate::http::encoding::{
    coding_named, decoded_from, decompress, decompressed, finish_decoding, is_decoded_here,
    ContentEncoding,
};
use crate::http::error::{Fatal, FatalView, HttpError};
use crate::http::headers::HeaderMap;
use crate::http::lines::{
    after_line, first_line, has_line, header_line, is_blank_line, is_utf8, lemma_line_is_final,
    lemma_line_length, read_header_line, read_status_line, status_line, take_line,
};

verus! {

/// The headers that stand at the start of a stream, as far as they can be
/// told.
pub enum HeaderBlock {
    /// The stream is open and the headers go on beyond what has arrived.
    Incomplete,
    /// A line is no header, or the stream ended before the empty line.
    Malformed,
    /// The headers up to the empty line, and what follows that line.
    Complete { headers: Map<Seq<u8>, Seq<u8>>, rest: Seq<u8> },
}

/// A response up to its body, before any decompression.
#[derive(Debug)]
pub enum Framed {
    /// The stream is open and the response goes on beyond what has arrived.
    Incomplete,
    /// The response ends the request for good.
    Abort(Fatal),
    /// The response is refused.
    Failed(HttpError),
    /// The headers, the content coding that they name, and the body as it
    /// was sent, without its transfer coding.
    Body { headers: HeaderMap, coding: ContentEncoding, raw: Vec<u8> },
}

/// A `Framed` as plain values.
pub enum FramedView {
    Incomplete,
    Abort(FatalView),
    Failed(HttpError),
    Body { headers: Map<Seq<u8>, Seq<u8>>, coding: ContentEncoding, raw: Seq<u8> },
}

impl View for Framed {
    type V = FramedView;

    open spec fn view(&self) -> FramedView {
        match *self {
            Framed::Incomplete => FramedView::Incomplete,
            Framed::Abort(fatal) => FramedView::Abort(fatal@),
            Framed::Failed(e) => FramedView::Failed(e),
            Framed::Body { headers, coding, raw } => FramedView::Body {
                headers: headers@,
                coding,
                raw: raw@,
            },
        }
    }
}

/// What a request has come to.
#[derive(Debug)]
pub enum Reply {
    /// The stream is open and the response goes on beyond what has arrived.
    Incomplete,
    /// The response ends the request for good.
    Abort(Fatal),
    /// The request is over: the headers and the decoded body, or an error.
    Finished(Result<(HeaderMap, Vec<u8>), HttpError>),
}

/// A `Reply` as plain values.
pub enum ReplyView {
    Incomplete,
    Abort(FatalView),
    Finished(Result<(Map<Seq<u8>, Seq<u8>>, Seq<u8>), HttpError>),
}

impl View for Reply {
    type V = ReplyView;

    open spec fn view(&self) -> ReplyView {
        match *self {
            Reply::Incomplete => ReplyView::Incomplete,
            Reply::Abort(fatal) => ReplyView::Abort(fatal@),
            Reply::Finished(Ok((headers, body))) => ReplyView::Finished(Ok((headers@, body@))),
            Reply::Finished(Err(e)) => ReplyView::Finished(Err(e)),
        }
    }
}

/// The headers at the start of `input`, added to `headers`: line by line up
/// to the empty line. A header that comes again replaces the earlier one. A
/// line that is not UTF-8 or has no `:` is malformed, and so is the end of
/// the stream before the empty line.
pub open spec fn header_block(
    input: Seq<u8>,
    closed: bool,
    headers: Map<Seq<u8>, Seq<u8>>,
) -> HeaderBlock
    decreases input.len(),
{
    let line = first_line(input);
    if !has_line(input) && !closed {
        HeaderBlock::Incomplete
    } else if !valid_utf8(line) {
        HeaderBlock::Malformed
    } else if is_blank_line(line) {
        HeaderBlock::Complete { headers, rest: after_line(input) }
    } else {
        match header_line(line) {
            None => HeaderBlock::Malformed,
            Some((name, value)) => {
                proof {
                    lemma_line_length(input);
                }
                header_block(after_line(input), closed, headers.insert(name, value))
            },
        }
    }
}

/// The content coding that the headers name: `Identity` where they name
/// none, and none where the name is unknown.
pub open spec fn content_coding(headers: Map<Seq<u8>, Seq<u8>>) -> Option<ContentEncoding> {
    if headers.dom().contains("content-encoding".spec_bytes()) {
        coding_named(headers["content-encoding".spec_bytes()])
    } else {
        Some(ContentEncoding::Identity)
    }
}

/// The body that follows the headers. A content coding that is unknown or not
/// decoded here is refused before the body is looked at. With a transfer
/// coding of `chunked` the body is what the chunks carry; another transfer
/// coding ends the request; with none the body is all that comes until the
/// stream is closed.
pub open spec fn framed_body(
    headers: Map<Seq<u8>, Seq<u8>>,
    rest: Seq<u8>,
    closed: bool,
) -> FramedView {
    let transfer = headers["transfer-encoding".spec_bytes()];
    match content_coding(headers) {
        None => FramedView::Failed(HttpError::UnsupportedEncoding),
        Some(coding) => if !is_decoded_here(coding) {
            FramedView::Failed(HttpError::UnsupportedEncoding)
        } else if !headers.dom().contains("transfer-encoding".spec_bytes()) {
            if closed {
                FramedView::Body { headers, coding, raw: rest }
            } else {
                FramedView::Incomplete
            }
        } else if !same_ignoring_case("chunked".spec_bytes(), transfer) {
            FramedView::Abort(FatalView::TransferEncoding { value: transfer })
        } else {
            match chunks(rest, closed, Seq::empty()) {
                DechunkedView::Incomplete => FramedView::Incomplete,
                DechunkedView::Malformed => FramedView::Failed(HttpError::MalformedResponse),
                DechunkedView::Complete(raw) => FramedView::Body { headers, coding, raw },
            }
        },
    }
}

/// What follows a status line with the code 200.
pub open spec fn framed_after_status(input: Seq<u8>, closed: bool) -> FramedView {
    match header_block(input, closed, Map::empty()) {
        HeaderBlock::Incomplete => FramedView::Incomplete,
        HeaderBlock::Malformed => FramedView::Failed(HttpError::MalformedResponse),
        HeaderBlock::Complete { headers, rest } => framed_body(headers, rest, closed),
    }
}

/// The response that `input` holds, the stream from its first byte on, of
/// which `closed` says whether it has ended. The status line has to be UTF-8
/// and to hold a space with text after it; a code other than `200` ends the
/// request.
pub open spec fn framed(input: Seq<u8>, closed: bool) -> FramedView {
    if !has_line(input) && !closed {
        FramedView::Incomplete
    } else if !valid_utf8(first_line(input)) {
        FramedView::Failed(HttpError::MalformedResponse)
    } else {
        match status_line(first_line(input)) {
            None => FramedView::Failed(HttpError::MalformedResponse),
            Some((code, reason)) => if code == "200".spec_bytes() {
                framed_after_status(after_line(input), closed)
            } else {
                FramedView::Abort(FatalView::Status { code, reason })
            },
        }
    }
}

/// The reply for a response that was framed, given what the decompressor
/// made of its body.
pub open spec fn reply_from(framed: FramedView, decompressed: Option<Seq<u8>>) -> ReplyView {
    match framed {
        FramedView::Incomplete => ReplyView::Incomplete,
        FramedView::Abort(fatal) => ReplyView::Abort(fatal),
        FramedView::Failed(e) => ReplyView::Finished(Err(e)),
        FramedView::Body { headers, coding, raw } => match decoded_from(coding, decompressed) {
            Ok(body) => ReplyView::Finished(Ok((headers, body))),
            Err(e) => ReplyView::Finished(Err(e)),
        },
    }
}

/// What the decompressor makes of the body of a framed response.
pub open spec fn decompressed_body(framed: FramedView) -> Option<Seq<u8>> {
    match framed {
        FramedView::Body { headers, coding, raw } => decompressed(coding, raw),
        _ => None,
    }
}

/// The reply that `input` amounts to, the stream from its first byte on, of
/// which `closed` says whether it has ended.
pub open spec fn reply(input: Seq<u8>, closed: bool) -> ReplyView {
    reply_from(framed(input, closed), decompressed_body(framed(input, closed)))
}

/// Whether every name in `headers` is in lower case and every value without
/// white space around it.
pub open spec fn is_normalised(headers: Map<Seq<u8>, Seq<u8>>) -> bool {
    forall|name: Seq<u8>| #[trigger]
        headers.dom().contains(name) ==> lower(name) == name && trim(headers[name])
            == headers[name]
}

/// The headers that are read keep the map normalised.
pub proof fn law_headers_are_normalised(
    input: Seq<u8>,
    closed: bool,
    headers: Map<Seq<u8>, Seq<u8>>,
)
    requires
        is_normalised(headers),
    ensures
        header_block(input, closed, headers) matches HeaderBlock::Complete { headers: read, rest }
            ==> is_normalised(read),
    decreases input.len(),
{
    lemma_line_length(input);
    let line = first_line(input);
    if (has_line(input) || closed) && valid_utf8(line) && !is_blank_line(line) {
        match header_line(line) {
            None => {},
            Some((name, value)) => {
                let (written, text) = crate::bytes::split_at_first(line, 0x3a)->0;
                lemma_lower_is_idempotent(written);
                lemma_trim_is_idempotent(text);
                let added = headers.insert(name, value);
                assert(is_normalised(added)) by {
                    assert forall|key: Seq<u8>| #[trigger] added.dom().contains(key) implies lower(
                        key,
                    ) == key && trim(added[key]) == added[key] by {
                        if key != name {
                            assert(headers.dom().contains(key));
                        }
                    }
                }
                law_headers_are_normalised(after_line(input), closed, added);
            },
        }
    }
}

/// The headers of an answer are normalised: names in lower case, values
/// without white space around them.
pub proof fn law_answer_has_normalised_headers(input: Seq<u8>, closed: bool)
    ensures
        reply(input, closed) matches ReplyView::Finished(Ok((headers, body))) ==> is_normalised(
            headers,
        ),
{
    law_headers_are_normalised(after_line(input), closed, Map::empty());
}

/// Whether one of the lines of `input` is the empty line.
pub open spec fn has_blank_line(input: Seq<u8>) -> bool
    decreases input.len(),
{
    if input.len() == 0 {
        false
    } else if is_blank_line(first_line(input)) {
        true
    } else {
        proof {
            lemma_line_length(input);
        }
        has_blank_line(after_line(input))
    }
}

/// Headers that the stream closes on are malformed: without an empty line
/// in `input`, the headers of a closed stream are never complete, and never
/// waited for.
pub proof fn law_headers_end_with_blank_line(input: Seq<u8>, headers: Map<Seq<u8>, Seq<u8>>)
    requires
        !has_blank_line(input),
    ensures
        header_block(input, true, headers) == HeaderBlock::Malformed,
    decreases input.len(),
{
    lemma_line_length(input);
    if input.len() == 0 {
        assert(first_line(input) =~= Seq::<u8>::empty());
        assert(header_line(first_line(input)) is None) by {
            crate::bytes::lemma_position(first_line(input), 0x3a, 0);
        }
    } else if valid_utf8(first_line(input)) {
        match header_line(first_line(input)) {
            None => {},
            Some((name, value)) => {
                law_headers_end_with_blank_line(after_line(input), headers.insert(name, value));
            },
        }
    }
}

/// A response whose headers lack the empty line, on a stream that is closed,
/// is malformed, unless its status line has ended the request already.
pub proof fn law_response_needs_blank_line(input: Seq<u8>)
    requires
        !has_blank_line(after_line(input)),
    ensures
        match reply(input, true) {
            ReplyView::Finished(r) => r == Err::<(Map<Seq<u8>, Seq<u8>>, Seq<u8>), HttpError>(
                HttpError::MalformedResponse,
            ),
            ReplyView::Abort(fatal) => fatal is Status,
            ReplyView::Incomplete => false,
        },
{
    law_headers_end_with_blank_line(after_line(input), Map::empty());
}

/// Once the stream is closed nothing is waited for: the response is never
/// incomplete.
pub proof fn law_closed_stream_is_decided(input: Seq<u8>)
    ensures
        !(framed(input, true) is Incomplete),
        !(reply(input, true) is Incomplete),
{
    lemma_headers_decided(after_line(input), Map::empty());
    match header_block(after_line(input), true, Map::empty()) {
        HeaderBlock::Complete { headers, rest } => {
            lemma_chunks_decided(rest, Seq::empty());
        },
        _ => {},
    }
}

proof fn lemma_headers_decided(input: Seq<u8>, headers: Map<Seq<u8>, Seq<u8>>)
    ensures
        !(header_block(input, true, headers) is Incomplete),
    decreases input.len(),
{
    lemma_line_length(input);
    if valid_utf8(first_line(input)) && !is_blank_line(first_line(input)) {
        match header_line(first_line(input)) {
            None => {},
            Some((name, value)) => {
                lemma_headers_decided(after_line(input), headers.insert(name, value));
            },
        }
    }
}

proof fn lemma_chunks_decided(input: Seq<u8>, body: Seq<u8>)
    ensures
        !(chunks(input, true, body) is Incomplete),
    decreases input.len(),
{
    lemma_line_length(input);
    let size = crate::http::chunked::chunk_size(first_line(input));
    let rest = after_line(input);
    if valid_utf8(first_line(input)) && size > 0 && rest.len() >= size + 2 {
        lemma_chunks_decided(rest.skip(size + 2), body + rest.take(size));
    }
}

/// The names of the content codings are told apart: a name that reads `br`,
/// in either case of its letters, is Brotli's.
pub proof fn lemma_brotli_name(name: Seq<u8>)
    requires
        same_ignoring_case("br".spec_bytes(), name),
    ensures
        coding_named(name) == Some(ContentEncoding::Brotli),
{
    broadcast use vstd::string::is_ascii_spec_bytes;

    reveal_strlit("br");
    reveal_strlit("gzip");
    reveal_strlit("compress");
    reveal_strlit("deflate");
    reveal_strlit("identity");
    assert(vstd::string::is_ascii("br"));
    assert(vstd::string::is_ascii("gzip"));
    assert(vstd::string::is_ascii("compress"));
    assert(vstd::string::is_ascii("deflate"));
    assert(vstd::string::is_ascii("identity"));
    assert(crate::bytes::lower(name).len() == 2);
    assert(crate::bytes::lower("gzip".spec_bytes()).len() == 4);
    assert(crate::bytes::lower("compress".spec_bytes()).len() == 8);
    assert(crate::bytes::lower("deflate".spec_bytes()).len() == 7);
    assert(crate::bytes::lower("identity".spec_bytes()).len() == 8);
}

/// A response in Brotli is refused, and nothing of its body is handed out:
/// with a status of 200 and headers that are complete and name `br` as the
/// content coding, the reply is the error `UnsupportedEncoding`, whatever
/// else the headers say and whatever follows them.
pub proof fn law_brotli_is_refused(input: Seq<u8>, closed: bool)
    requires
        has_line(input) || closed,
        valid_utf8(first_line(input)),
        status_line(first_line(input)) matches Some((code, reason)) && code == "200".spec_bytes(),
        header_block(after_line(input), closed, Map::empty()) matches HeaderBlock::Complete {
            headers,
            rest,
        } && headers.dom().contains("content-encoding".spec_bytes()) && same_ignoring_case(
            "br".spec_bytes(),
            headers["content-encoding".spec_bytes()],
        ),
    ensures
        reply(input, closed) == ReplyView::Finished(
            Err::<(Map<Seq<u8>, Seq<u8>>, Seq<u8>), HttpError>(HttpError::UnsupportedEncoding),
        ),
{
    match header_block(after_line(input), closed, Map::empty()) {
        HeaderBlock::Complete { headers, rest } => {
            lemma_brotli_name(headers["content-encoding".spec_bytes()]);
        },
        _ => {},
    }
}

proof fn lemma_headers_are_final(
    input: Seq<u8>,
    headers: Map<Seq<u8>, Seq<u8>>,
    more: Seq<u8>,
    closed: bool,
)
    requires
        !(header_block(input, false, headers) is Incomplete),
    ensures
        header_block(input + more, closed, headers) == match header_block(input, false, headers) {
            HeaderBlock::Complete { headers, rest } => HeaderBlock::Complete {
                headers,
                rest: rest + more,
            },
            other => other,
        },
    decreases input.len(),
{
    lemma_line_length(input);
    lemma_line_is_final(input, more);
    if valid_utf8(first_line(input)) && !is_blank_line(first_line(input)) {
        match header_line(first_line(input)) {
            None => {},
            Some((name, value)) => {
                lemma_headers_are_final(after_line(input), headers.insert(name, value), more, closed);
            },
        }
    }
}

/// A reply that is not `Incomplete` is final: whatever arrives after the
/// bytes that it was read from, and whether the stream is closed then or not,
/// the reply stays what it is.
pub proof fn law_decided_reply_is_final(input: Seq<u8>, more: Seq<u8>, closed: bool)
    requires
        !(reply(input, false) is Incomplete),
    ensures
        framed(input + more, closed) == framed(input, false),
        reply(input + more, closed) == reply(input, false),
{
    lemma_line_is_final(input, more);
    let after = after_line(input);
    if valid_utf8(first_line(input)) {
        match status_line(first_line(input)) {
            None => {},
            Some((code, reason)) => {
                if code == "200".spec_bytes() {
                    lemma_headers_are_final(after, Map::empty(), more, closed);
                    match header_block(after, false, Map::empty()) {
                        HeaderBlock::Complete { headers, rest } => {
                            if content_coding(headers) matches Some(coding) && is_decoded_here(
                                coding,
                            ) && headers.dom().contains("transfer-encoding".spec_bytes())
                                && same_ignoring_case(
                                "chunked".spec_bytes(),
                                headers["transfer-encoding".spec_bytes()],
                            ) {
                                lemma_chunks_are_final(rest, Seq::empty(), more, closed);
                            }
                        },
                        _ => {},
                    }
                }
            },
        }
    }
}

enum Block<'a> {
    Incomplete,
    Malformed,
    Complete(HeaderMap, &'a [u8]),
}

impl<'a> Block<'a> {
    spec fn view(self) -> HeaderBlock {
        match self {
            Block::Incomplete => HeaderBlock::Incomplete,
            Block::Malformed => HeaderBlock::Malformed,
            Block::Complete(headers, rest) => HeaderBlock::Complete { headers: headers@, rest: rest@ },
        }
    }
}

fn read_headers<'a>(input: &'a [u8], closed: bool) -> (r: Block<'a>)
    ensures
        r.view() == header_block(input@, closed, Map::empty()),
{
    let mut headers: HeaderMap = HeaderMap::new();
    let mut rest: &[u8] = input;
    loop
        invariant
            header_block(input@, closed, Map::empty()) == header_block(rest@, closed, headers@),
        decreases rest@.len(),
    {
        let (line, after) = match take_line(rest, closed) {
            Some(parts) => parts,
            None => {
                return Block::Incomplete;
            },
        };
        if !is_utf8(line) {
            return Block::Malformed;
        }
        if line.len() == 2 && line[0] == 0x0d && line[1] == 0x0a {
            assert(line@ =~= seq![0x0du8, 0x0a]);
            return Block::Complete(headers, after);
        }
        match read_header_line(line) {
            None => {
                return Block::Malformed;
            },
            Some((name, value)) => {
                proof {
                    lemma_line_length(rest@);
                }
                headers.insert(name, value);
                rest = after;
            },
        }
    }
}

fn read_content_coding(headers: &HeaderMap) -> (coding: Option<ContentEncoding>)
    ensures
        coding == content_coding(headers@),
{
    match headers.get("content-encoding".as_bytes()) {
        Some(name) => match ContentEncoding::from_bytes(name.as_slice()) {
            Ok(coding) => Some(coding),
            Err(_) => None,
        },
        None => Some(ContentEncoding::Identity),
    }
}

enum Transfer {
    UntilClosed,
    Chunked,
    Other(Vec<u8>),
}

fn read_transfer_coding(headers: &HeaderMap) -> (transfer: Transfer)
    ensures
        match transfer {
            Transfer::UntilClosed => !headers@.dom().contains("transfer-encoding".spec_bytes()),
            Transfer::Chunked => headers@.dom().contains("transfer-encoding".spec_bytes())
                && same_ignoring_case(
                "chunked".spec_bytes(),
                headers@["transfer-encoding".spec_bytes()],
            ),
            Transfer::Other(value) => headers@.dom().contains("transfer-encoding".spec_bytes())
                && !same_ignoring_case(
                "chunked".spec_bytes(),
                headers@["transfer-encoding".spec_bytes()],
            ) && value@ == headers@["transfer-encoding".spec_bytes()],
        },
{
    match headers.get("transfer-encoding".as_bytes()) {
        None => Transfer::UntilClosed,
        Some(value) => if eq_ignore_case("chunked".as_bytes(), value.as_slice()) {
            Transfer::Chunked
        } else {
            Transfer::Other(slice_to_vec(value.as_slice()))
        },
    }
}

fn frame_body(headers: HeaderMap, rest: &[u8], closed: bool) -> (r: Framed)
    ensures
        r@ == framed_body(headers@, rest@, closed),
        r matches Framed::Body { coding, .. } ==> is_decoded_here(coding),
{
    let coding: ContentEncoding = match read_content_coding(&headers) {
        Some(coding) => coding,
        None => {
            return Framed::Failed(HttpError::UnsupportedEncoding);
        },
    };
    if !coding.is_supported() {
        return Framed::Failed(HttpError::UnsupportedEncoding);
    }
    match read_transfer_coding(&headers) {
        Transfer::UntilClosed => if closed {
            Framed::Body { headers, coding, raw: slice_to_vec(rest) }
        } else {
            Framed::Incomplete
        },
        Transfer::Other(value) => Framed::Abort(Fatal::TransferEncoding { value }),
        Transfer::Chunked => match dechunk(rest, closed) {
            Dechunked::Incomplete => Framed::Incomplete,
            Dechunked::Malformed => Framed::Failed(HttpError::MalformedResponse),
            Dechunked::Complete(raw) => Framed::Body { headers, coding, raw },
        },
    }
}

/// Reads the response in `input` up to its body: the status line, the
/// headers, the content coding and the transfer coding.
pub fn frame(input: &[u8], closed: bool) -> (r: Framed)
    ensures
        r@ == framed(input@, closed),
        r matches Framed::Body { coding, .. } ==> is_decoded_here(coding),
{
    let (line, after) = match take_line(input, closed) {
        Some(parts) => parts,
        None => {
            return Framed::Incomplete;
        },
    };
    if !is_utf8(line) {
        return Framed::Failed(HttpError::MalformedResponse);
    }
    let (code, reason) = match read_status_line(line) {
        Some(parts) => parts,
        None => {
            return Framed::Failed(HttpError::MalformedResponse);
        },
    };
    if !eq_bytes(code, "200".as_bytes()) {
        return Framed::Abort(
            Fatal::Status { code: slice_to_vec(code), reason: slice_to_vec(reason) },
        );
    }
    match read_headers(after, closed) {
        Block::Incomplete => Framed::Incomplete,
        Block::Malformed => Framed::Failed(HttpError::MalformedResponse),
        Block::Complete(headers, rest) => frame_body(headers, rest, closed),
    }
}

/// Ends a response that was framed, with what the decompressor made of its
/// body.
pub fn conclude(framed: Framed, decompressed: Option<Vec<u8>>) -> (r: Reply)
    ensures
        r@ == reply_from(framed@, optional(decompressed)),
{
    match framed {
        Framed::Incomplete => Reply::Incomplete,
        Framed::Abort(fatal) => Reply::Abort(fatal),
        Framed::Failed(e) => Reply::Finished(Err(e)),
        Framed::Body { headers, coding, raw } => match finish_decoding(coding, decompressed) {
            Ok(body) => Reply::Finished(Ok((headers, body))),
            Err(e) => Reply::Finished(Err(e)),
        },
    }
}

/// Reads the response in `input`, all that has arrived of the stream, of
/// which `closed` says whether it has ended. While the reply is `Incomplete`
/// the caller reads on and asks again with all the bytes; once the stream is
/// closed the reply is never `Incomplete`.
pub fn respond(input: &[u8], closed: bool) -> (r: Reply)
    ensures
        r@ == reply(input@, closed),
{
    let framed: Framed = frame(input, closed);
    let decompressed: Option<Vec<u8>> = match &framed {
        Framed::Body { headers, coding, raw } => decompress(*coding, raw.as_slice()),
        _ => None,
    };
    conclude(framed, decompressed)
}

} // verus!

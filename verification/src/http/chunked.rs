//! The chunked transfer coding.

use vstd::prelude::*;
use vstd::slice::slice_subrange;
use vstd::utf8::valid_utf8;
use crate::bytes::{trim_end, trimmed_end};
use crate::http::lines::{
    after_line, first_line, has_line, is_utf8, lemma_line_is_final, lemma_line_length, take_line,
};
use crate::number::{hex_number, parse_hex};

verus! {

/// What a chunked body amounts to so far.
#[derive(Debug, PartialEq, Eq)]
pub enum Dechunked {
    /// The stream is open and the body goes on beyond what has arrived.
    Incomplete,
    /// The framing is broken.
    Malformed,
    /// The body ended; these are the payloads of its chunks, joined.
    Complete(Vec<u8>),
}

/// A `Dechunked` as plain values.
pub enum DechunkedView {
    Incomplete,
    Malformed,
    Complete(Seq<u8>),
}

impl View for Dechunked {
    type V = DechunkedView;

    open spec fn view(&self) -> DechunkedView {
        match *self {
            Dechunked::Incomplete => DechunkedView::Incomplete,
            Dechunked::Malformed => DechunkedView::Malformed,
            Dechunked::Complete(body) => DechunkedView::Complete(body@),
        }
    }
}

/// The size that a chunk's first line announces: the line without the white
/// space at its end, read as a signed hexadecimal number of 64 bits. A line
/// that is no such number announces 0.
pub open spec fn chunk_size(line: Seq<u8>) -> int {
    match hex_number(trim_end(line)) {
        Some(size) => size as int,
        None => 0,
    }
}

/// The body that the chunks in `input` carry, after the payload `body` of
/// the chunks before them. Each chunk is a line with its size, the payload of
/// that size, and two more bytes, which are dropped unread. A size of 0 ends
/// the body; nothing after that line is looked at. A size line that is not
/// UTF-8, a negative size, and a stream that closes inside a chunk are broken
/// framing. A stream that closes where a chunk would start ends the body.
pub open spec fn chunks(input: Seq<u8>, closed: bool, body: Seq<u8>) -> DechunkedView
    decreases input.len(),
{
    let size = chunk_size(first_line(input));
    let rest = after_line(input);
    if !has_line(input) && !closed {
        DechunkedView::Incomplete
    } else if !valid_utf8(first_line(input)) {
        DechunkedView::Malformed
    } else if size == 0 {
        DechunkedView::Complete(body)
    } else if size < 0 {
        DechunkedView::Malformed
    } else if rest.len() < size + 2 {
        if closed {
            DechunkedView::Malformed
        } else {
            DechunkedView::Incomplete
        }
    } else {
        proof {
            lemma_line_length(input);
        }
        chunks(rest.skip(size + 2), closed, body + rest.take(size))
    }
}

/// A chunked body that has ended, or is broken, stays so when more of the
/// stream arrives.
pub proof fn lemma_chunks_are_final(input: Seq<u8>, body: Seq<u8>, more: Seq<u8>, closed: bool)
    requires
        !(chunks(input, false, body) is Incomplete),
    ensures
        chunks(input + more, closed, body) == chunks(input, false, body),
    decreases input.len(),
{
    lemma_line_length(input);
    lemma_line_is_final(input, more);
    let size = chunk_size(first_line(input));
    let rest = after_line(input);
    if valid_utf8(first_line(input)) && size > 0 {
        assert((rest + more).skip(size + 2) =~= rest.skip(size + 2) + more);
        assert((rest + more).take(size) =~= rest.take(size));
        lemma_chunks_are_final(rest.skip(size + 2), body + rest.take(size), more, closed);
    }
}

fn read_chunk_size(line: &[u8]) -> (size: i64)
    ensures
        size == chunk_size(line@),
{
    match parse_hex(trimmed_end(line)) {
        Some(size) => size,
        None => 0,
    }
}

/// Takes the chunk framing off `input`, the stream from the first chunk on,
/// of which `closed` says whether it has ended.
pub fn dechunk(input: &[u8], closed: bool) -> (r: Dechunked)
    ensures
        r@ == chunks(input@, closed, Seq::empty()),
        closed ==> !(r is Incomplete),
{
    let mut body: Vec<u8> = Vec::new();
    let mut rest: &[u8] = input;
    loop
        invariant
            chunks(input@, closed, Seq::empty()) == chunks(rest@, closed, body@),
        decreases rest@.len(),
    {
        let (line, after) = match take_line(rest, closed) {
            Some(parts) => parts,
            None => {
                return Dechunked::Incomplete;
            },
        };
        if !is_utf8(line) {
            return Dechunked::Malformed;
        }
        let size: i64 = read_chunk_size(line);
        if size == 0 {
            return Dechunked::Complete(body);
        }
        if size < 0 {
            return Dechunked::Malformed;
        }
        if after.len() < 2 || ((after.len() - 2) as u64) < size as u64 {
            if closed {
                return Dechunked::Malformed;
            } else {
                return Dechunked::Incomplete;
            }
        }
        let size: usize = size as usize;
        proof {
            lemma_line_length(rest@);
        }
        let ghost before = body@;
        body.extend_from_slice(slice_subrange(after, 0, size));
        assert(body@ =~= before + after@.take(size as int));
        rest = slice_subrange(after, size + 2, after.len());
    }
}

} // verus!

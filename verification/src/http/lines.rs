//! Lines of a byte stream, and the lines that a response starts with.

use vstd::prelude::*;
use vstd::slice::{slice_subrange, slice_to_vec};
use vstd::utf8::valid_utf8;
use crate::bytes::{
    find, lemma_position, lower, position, split_at_first, split_once, to_lower, trim, trimmed,
};

verus! {

/// Whether `input` holds a whole line, that is, a line feed.
pub open spec fn has_line(input: Seq<u8>) -> bool {
    position(input, 0x0a, 0) < input.len()
}

/// The length of the first line of `input`: up to its first line feed, which
/// belongs to the line, or all of `input` where it has none.
pub open spec fn line_length(input: Seq<u8>) -> int {
    let at = position(input, 0x0a, 0);
    if at < input.len() {
        at + 1
    } else {
        input.len() as int
    }
}

/// The first line of `input`, with the line feed that ends it.
pub open spec fn first_line(input: Seq<u8>) -> Seq<u8> {
    input.take(line_length(input))
}

/// What follows the first line of `input`.
pub open spec fn after_line(input: Seq<u8>) -> Seq<u8> {
    input.skip(line_length(input))
}

/// The first line lies within the input, is empty only where the input is,
/// and holds a line feed at its end and nowhere else.
pub proof fn lemma_line_length(input: Seq<u8>)
    ensures
        0 <= line_length(input) <= input.len(),
        input.len() > 0 ==> line_length(input) > 0,
        has_line(input) ==> line_length(input) > 0 && input[line_length(input) - 1] == 0x0a,
        forall|i: int| 0 <= i < line_length(input) - 1 ==> input[i] != 0x0a,
{
    lemma_position(input, 0x0a, 0);
}

/// A whole line stays what it is when more of the stream arrives: the bytes
/// that arrive stand after it.
pub proof fn lemma_line_is_final(input: Seq<u8>, more: Seq<u8>)
    requires
        has_line(input),
    ensures
        has_line(input + more),
        first_line(input + more) == first_line(input),
        after_line(input + more) == after_line(input) + more,
{
    let longer = input + more;
    lemma_position(input, 0x0a, 0);
    lemma_position(longer, 0x0a, 0);
    let at = position(input, 0x0a, 0);
    let there = position(longer, 0x0a, 0);
    assert(longer[at] == 0x0a);
    assert(there == at) by {
        if there < at {
            assert(longer[there] == input[there]);
        }
    }
    assert(first_line(longer) =~= first_line(input));
    assert(after_line(longer) =~= after_line(input) + more);
}

/// `line` without the line feed, or the carriage return and line feed, that
/// ends it.
pub open spec fn without_line_ending(line: Seq<u8>) -> Seq<u8> {
    if line.len() >= 2 && line[line.len() - 2] == 0x0d && line[line.len() - 1] == 0x0a {
        line.take(line.len() - 2)
    } else if line.len() >= 1 && line[line.len() - 1] == 0x0a {
        line.take(line.len() - 1)
    } else {
        line
    }
}

/// The status code and the reason of a status line: the code stands after the
/// first space; the reason, which may be missing, after the second one.
/// A line without a space, or with nothing after its first space, is no
/// status line.
pub open spec fn status_line(line: Seq<u8>) -> Option<(Seq<u8>, Seq<u8>)> {
    match split_at_first(without_line_ending(line), 0x20) {
        None => None,
        Some((version, status)) => if status.len() == 0 {
            None
        } else {
            match split_at_first(status, 0x20) {
                Some(parts) => Some(parts),
                None => Some((status, Seq::empty())),
            }
        },
    }
}

/// The name and the value of a header line: the name stands before the first
/// `:`, and is kept in lower case; the value after it, and is kept without
/// the white space around it. A line without a `:` is no header line.
pub open spec fn header_line(line: Seq<u8>) -> Option<(Seq<u8>, Seq<u8>)> {
    match split_at_first(line, 0x3a) {
        Some((name, value)) => Some((lower(name), trim(value))),
        None => None,
    }
}

/// Whether `line` is the empty line that ends the headers.
pub open spec fn is_blank_line(line: Seq<u8>) -> bool {
    line == seq![0x0du8, 0x0a]
}

/// `core::str::from_utf8`, asked only whether it succeeds. Trusted: it
/// succeeds on the well-formed UTF-8 sequences and on no others.
#[verifier::external_body]
pub(crate) fn is_utf8(bytes: &[u8]) -> (valid: bool)
    ensures
        valid == valid_utf8(bytes@),
{
    core::str::from_utf8(bytes).is_ok()
}

/// Takes the first line off `input`. Without a line feed in `input` there is
/// a line only once the stream is closed: what is left of it, which is empty
/// at the end of the stream.
pub fn take_line(input: &[u8], closed: bool) -> (r: Option<(&[u8], &[u8])>)
    ensures
        r is Some <==> has_line(input@) || closed,
        r matches Some((line, rest)) ==> line@ == first_line(input@) && rest@ == after_line(
            input@,
        ),
{
    let at: usize = find(input, 0x0a, 0);
    if at < input.len() {
        Some((slice_subrange(input, 0, at + 1), slice_subrange(input, at + 1, input.len())))
    } else if closed {
        Some((input, slice_subrange(input, input.len(), input.len())))
    } else {
        None
    }
}

fn strip_line_ending(line: &[u8]) -> (r: &[u8])
    ensures
        r@ == without_line_ending(line@),
{
    let n: usize = line.len();
    if n >= 2 && line[n - 2] == 0x0d && line[n - 1] == 0x0a {
        slice_subrange(line, 0, n - 2)
    } else if n >= 1 && line[n - 1] == 0x0a {
        slice_subrange(line, 0, n - 1)
    } else {
        line
    }
}

/// Reads a status line: its code and its reason.
pub fn read_status_line(line: &[u8]) -> (r: Option<(&[u8], &[u8])>)
    ensures
        match r {
            Some((code, reason)) => status_line(line@) == Some((code@, reason@)),
            None => status_line(line@) is None,
        },
{
    match split_once(strip_line_ending(line), 0x20) {
        None => None,
        Some((_version, status)) => if status.len() == 0 {
            None
        } else {
            match split_once(status, 0x20) {
                Some(parts) => Some(parts),
                None => Some((status, slice_subrange(status, 0, 0))),
            }
        },
    }
}

/// Reads a header line: its name in lower case and its trimmed value.
pub fn read_header_line(line: &[u8]) -> (r: Option<(Vec<u8>, Vec<u8>)>)
    ensures
        match r {
            Some((name, value)) => header_line(line@) == Some((name@, value@)),
            None => header_line(line@) is None,
        },
{
    match split_once(line, 0x3a) {
        Some((name, value)) => Some((to_lower(name), slice_to_vec(trimmed(value)))),
        None => None,
    }
}

} // verus!

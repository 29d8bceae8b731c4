//! Byte strings: searching, splitting, case folding and trimming.

use vstd::prelude::*;
use vstd::slice::slice_subrange;

verus! {

/// The bytes of an optional buffer.
pub open spec fn optional(buffer: Option<Vec<u8>>) -> Option<Seq<u8>> {
    match buffer {
        Some(bytes) => Some(bytes@),
        None => None,
    }
}

/// The index of the first occurrence of `b` in `s` at or after `from`, or the
/// length of `s` when there is none.
pub open spec fn position(s: Seq<u8>, b: u8, from: int) -> int
    decreases s.len() - from,
{
    if from < 0 || from >= s.len() {
        s.len() as int
    } else if s[from] == b {
        from
    } else {
        position(s, b, from + 1)
    }
}

/// What `position` finds: a place in range that holds `b` with none before it,
/// or the end of `s` with no `b` from `from` on.
pub proof fn lemma_position(s: Seq<u8>, b: u8, from: int)
    requires
        0 <= from <= s.len(),
    ensures
        from <= position(s, b, from) <= s.len(),
        position(s, b, from) < s.len() ==> s[position(s, b, from)] == b,
        forall|j: int| from <= j < position(s, b, from) ==> s[j] != b,
    decreases s.len() - from,
{
    if from < s.len() && s[from] != b {
        lemma_position(s, b, from + 1);
    }
}

/// A text that holds no `b`, then `b`, then any text: the first `b` splits it
/// into the two texts.
pub proof fn lemma_split_at_first(head: Seq<u8>, b: u8, tail: Seq<u8>)
    requires
        forall|i: int| 0 <= i < head.len() ==> head[i] != b,
    ensures
        split_at_first(head + seq![b] + tail, b) == Some((head, tail)),
{
    let s = head + seq![b] + tail;
    lemma_position(s, b, 0);
    let at = position(s, b, 0);
    assert(s[head.len() as int] == b);
    assert(at == head.len()) by {
        if at < head.len() {
            assert(s[at] == head[at]);
        }
    }
    assert(s.take(at) =~= head);
    assert(s.skip(at + 1) =~= tail);
}

/// A text that holds no `b` is not split.
pub proof fn lemma_split_at_first_none(s: Seq<u8>, b: u8)
    requires
        forall|i: int| 0 <= i < s.len() ==> s[i] != b,
    ensures
        split_at_first(s, b) is None,
{
    lemma_position(s, b, 0);
}

/// Finds the first `b` in `s` at or after `from`.
pub fn find(s: &[u8], b: u8, from: usize) -> (at: usize)
    requires
        from <= s@.len(),
    ensures
        at == position(s@, b, from as int),
{
    let mut i: usize = from;
    while i < s.len()
        invariant
            from <= i <= s@.len(),
            position(s@, b, from as int) == position(s@, b, i as int),
        decreases s@.len() - i,
    {
        if s[i] == b {
            return i;
        }
        i = i + 1;
    }
    i
}

/// The parts of `s` before and after its first `b`, where it has one.
pub open spec fn split_at_first(s: Seq<u8>, b: u8) -> Option<(Seq<u8>, Seq<u8>)> {
    let at = position(s, b, 0);
    if at < s.len() {
        Some((s.take(at), s.skip(at + 1)))
    } else {
        None
    }
}

/// Splits `s` once, at its first `b`; the delimiter belongs to neither part.
pub fn split_once(s: &[u8], b: u8) -> (parts: Option<(&[u8], &[u8])>)
    ensures
        match parts {
            Some((head, tail)) => split_at_first(s@, b) == Some((head@, tail@)),
            None => split_at_first(s@, b) is None,
        },
{
    let at: usize = find(s, b, 0);
    if at < s.len() {
        Some((slice_subrange(s, 0, at), slice_subrange(s, at + 1, s.len())))
    } else {
        None
    }
}

/// An ASCII capital letter becomes its small letter; other bytes stay.
pub open spec fn lower_byte(b: u8) -> u8 {
    if 0x41 <= b <= 0x5a {
        (b + 0x20) as u8
    } else {
        b
    }
}

/// `s` with every ASCII capital letter made small.
pub open spec fn lower(s: Seq<u8>) -> Seq<u8> {
    Seq::new(s.len(), |i: int| lower_byte(s[i]))
}

/// Whether `a` and `b` are the same text up to the case of ASCII letters.
pub open spec fn same_ignoring_case(a: Seq<u8>, b: Seq<u8>) -> bool {
    lower(a) == lower(b)
}

/// `b` in ASCII lower case.
pub fn to_lower_byte(b: u8) -> (r: u8)
    ensures
        r == lower_byte(b),
{
    if 0x41 <= b && b <= 0x5a {
        b + 0x20
    } else {
        b
    }
}

/// A copy of `s` in ASCII lower case.
pub fn to_lower(s: &[u8]) -> (r: Vec<u8>)
    ensures
        r@ == lower(s@),
{
    let mut r: Vec<u8> = Vec::new();
    let mut i: usize = 0;
    while i < s.len()
        invariant
            i <= s@.len(),
            r@ == lower(s@.take(i as int)),
        decreases s@.len() - i,
    {
        r.push(to_lower_byte(s[i]));
        i = i + 1;
        assert(r@ =~= lower(s@.take(i as int)));
    }
    assert(s@.take(i as int) =~= s@);
    r
}

/// Whether `a` and `b` are the same text up to the case of ASCII letters.
pub fn eq_ignore_case(a: &[u8], b: &[u8]) -> (same: bool)
    ensures
        same == same_ignoring_case(a@, b@),
{
    if a.len() != b.len() {
        assert(lower(a@).len() != lower(b@).len());
        return false;
    }
    let mut i: usize = 0;
    while i < a.len()
        invariant
            i <= a@.len(),
            a@.len() == b@.len(),
            forall|j: int| 0 <= j < i ==> lower_byte(a@[j]) == lower_byte(b@[j]),
        decreases a@.len() - i,
    {
        if to_lower_byte(a[i]) != to_lower_byte(b[i]) {
            assert(lower(a@)[i as int] != lower(b@)[i as int]);
            return false;
        }
        i = i + 1;
    }
    assert(lower(a@) =~= lower(b@));
    true
}

/// Whether `a` and `b` hold the same bytes.
pub fn eq_bytes(a: &[u8], b: &[u8]) -> (same: bool)
    ensures
        same == (a@ == b@),
{
    if a.len() != b.len() {
        return false;
    }
    let mut i: usize = 0;
    while i < a.len()
        invariant
            i <= a@.len(),
            a@.len() == b@.len(),
            forall|j: int| 0 <= j < i ==> a@[j] == b@[j],
        decreases a@.len() - i,
    {
        if a[i] != b[i] {
            return false;
        }
        i = i + 1;
    }
    assert(a@ =~= b@);
    true
}

/// Whether `b` is one of the ASCII white-space characters: tab, line feed,
/// vertical tab, form feed, carriage return or space.
pub open spec fn is_ascii_space(b: u8) -> bool {
    0x09 <= b <= 0x0d || b == 0x20
}

/// Whether the two bytes encode U+0085 or U+00A0.
pub open spec fn is_space_pair(b0: u8, b1: u8) -> bool {
    b0 == 0xc2 && (b1 == 0x85 || b1 == 0xa0)
}

/// Whether the three bytes encode one of the white-space characters U+1680,
/// U+2000 to U+200A, U+2028, U+2029, U+202F, U+205F or U+3000.
pub open spec fn is_space_triple(b0: u8, b1: u8, b2: u8) -> bool {
    ||| b0 == 0xe1 && b1 == 0x9a && b2 == 0x80
    ||| b0 == 0xe2 && b1 == 0x80 && (0x80 <= b2 <= 0x8a || b2 == 0xa8 || b2 == 0xa9 || b2 == 0xaf)
    ||| b0 == 0xe2 && b1 == 0x81 && b2 == 0x9f
    ||| b0 == 0xe3 && b1 == 0x80 && b2 == 0x80
}

/// The length in bytes of the white-space character that is encoded in `s` from
/// `at` on, or 0 where none is.
pub open spec fn space_from(s: Seq<u8>, at: int) -> int {
    if 0 <= at < s.len() && is_ascii_space(s[at]) {
        1
    } else if 0 <= at && at + 2 <= s.len() && is_space_pair(s[at], s[at + 1]) {
        2
    } else if 0 <= at && at + 3 <= s.len() && is_space_triple(s[at], s[at + 1], s[at + 2]) {
        3
    } else {
        0
    }
}

/// The length in bytes of the white-space character whose encoding ends just
/// before `end` in `s`, or 0 where none does.
pub open spec fn space_until(s: Seq<u8>, end: int) -> int {
    if 1 <= end <= s.len() && is_ascii_space(s[end - 1]) {
        1
    } else if 2 <= end <= s.len() && is_space_pair(s[end - 2], s[end - 1]) {
        2
    } else if 3 <= end <= s.len() && is_space_triple(s[end - 3], s[end - 2], s[end - 1]) {
        3
    } else {
        0
    }
}

/// Where the run of white space that starts at `from` ends.
pub open spec fn spaces_end(s: Seq<u8>, from: int) -> int
    decreases s.len() - from,
{
    if space_from(s, from) > 0 {
        spaces_end(s, from + space_from(s, from))
    } else {
        from
    }
}

/// Where the run of white space that ends at `end` starts.
pub open spec fn spaces_start(s: Seq<u8>, end: int) -> int
    decreases end,
{
    if space_until(s, end) > 0 {
        spaces_start(s, end - space_until(s, end))
    } else {
        end
    }
}

/// `s` without the white space at its start.
pub open spec fn trim_start(s: Seq<u8>) -> Seq<u8> {
    s.skip(spaces_end(s, 0))
}

/// `s` without the white space at its end.
pub open spec fn trim_end(s: Seq<u8>) -> Seq<u8> {
    s.take(spaces_start(s, s.len() as int))
}

/// `s` without the white space at either end.
pub open spec fn trim(s: Seq<u8>) -> Seq<u8> {
    trim_end(trim_start(s))
}

/// Folding the case twice is folding it once.
pub proof fn lemma_lower_is_idempotent(s: Seq<u8>)
    ensures
        lower(lower(s)) == lower(s),
{
    assert(lower(lower(s)) =~= lower(s));
}

/// A run of white space ends within the text, before a character that is
/// none.
pub proof fn lemma_spaces_end(s: Seq<u8>, from: int)
    requires
        0 <= from <= s.len(),
    ensures
        from <= spaces_end(s, from) <= s.len(),
        space_from(s, spaces_end(s, from)) == 0,
    decreases s.len() - from,
{
    if space_from(s, from) > 0 {
        lemma_spaces_end(s, from + space_from(s, from));
    }
}

/// A run of white space starts within the text, after a character that is
/// none.
pub proof fn lemma_spaces_start(s: Seq<u8>, end: int)
    requires
        0 <= end <= s.len(),
    ensures
        0 <= spaces_start(s, end) <= end,
        space_until(s, spaces_start(s, end)) == 0,
    decreases end,
{
    if space_until(s, end) > 0 {
        lemma_spaces_start(s, end - space_until(s, end));
    }
}

/// What is trimmed has no white space at either end: trimming it again
/// changes nothing.
pub proof fn lemma_trim_is_idempotent(s: Seq<u8>)
    ensures
        space_from(trim(s), 0) == 0,
        space_until(trim(s), trim(s).len() as int) == 0,
        trim(trim(s)) == trim(s),
{
    let from = spaces_end(s, 0);
    lemma_spaces_end(s, 0);
    let rest = trim_start(s);
    assert(space_from(rest, 0) == space_from(s, from));
    let end = spaces_start(rest, rest.len() as int);
    lemma_spaces_start(rest, rest.len() as int);
    let kept = trim(s);
    assert(kept == rest.take(end));
    assert(space_until(kept, end) == space_until(rest, end));
    assert(space_from(kept, 0) == 0);
    assert(trim_start(kept) =~= kept);
    assert(trim_end(kept) =~= kept);
}

fn space_width_from(s: &[u8], at: usize) -> (w: usize)
    requires
        at <= s@.len(),
    ensures
        w == space_from(s@, at as int),
        at + w <= s@.len() <= usize::MAX,
{
    let n: usize = s.len();
    if at < n && (0x09 <= s[at] && s[at] <= 0x0d || s[at] == 0x20) {
        1
    } else if n - at >= 2 && s[at] == 0xc2 && (s[at + 1] == 0x85 || s[at + 1] == 0xa0) {
        2
    } else if n - at >= 3 && wide_space(s[at], s[at + 1], s[at + 2]) {
        3
    } else {
        0
    }
}

fn space_width_until(s: &[u8], end: usize) -> (w: usize)
    requires
        end <= s@.len(),
    ensures
        w == space_until(s@, end as int),
        w <= end,
{
    if end >= 1 && (0x09 <= s[end - 1] && s[end - 1] <= 0x0d || s[end - 1] == 0x20) {
        1
    } else if end >= 2 && s[end - 2] == 0xc2 && (s[end - 1] == 0x85 || s[end - 1] == 0xa0) {
        2
    } else if end >= 3 && wide_space(s[end - 3], s[end - 2], s[end - 1]) {
        3
    } else {
        0
    }
}

fn wide_space(b0: u8, b1: u8, b2: u8) -> (r: bool)
    ensures
        r == is_space_triple(b0, b1, b2),
{
    b0 == 0xe1 && b1 == 0x9a && b2 == 0x80 || b0 == 0xe2 && b1 == 0x80 && (0x80 <= b2 && b2
        <= 0x8a || b2 == 0xa8 || b2 == 0xa9 || b2 == 0xaf) || b0 == 0xe2 && b1 == 0x81 && b2
        == 0x9f || b0 == 0xe3 && b1 == 0x80 && b2 == 0x80
}

/// The part of `s` after its leading white space.
pub fn trimmed_start(s: &[u8]) -> (r: &[u8])
    ensures
        r@ == trim_start(s@),
{
    let mut i: usize = 0;
    loop
        invariant
            i <= s@.len(),
            spaces_end(s@, 0) == spaces_end(s@, i as int),
        ensures
            i <= s@.len(),
            i == spaces_end(s@, 0),
        decreases s@.len() - i,
    {
        let w: usize = space_width_from(s, i);
        if w == 0 {
            break;
        }
        i = i + w;
    }
    slice_subrange(s, i, s.len())
}

/// The part of `s` before its trailing white space.
pub fn trimmed_end(s: &[u8]) -> (r: &[u8])
    ensures
        r@ == trim_end(s@),
{
    let mut i: usize = s.len();
    loop
        invariant
            i <= s@.len(),
            spaces_start(s@, s@.len() as int) == spaces_start(s@, i as int),
        ensures
            i <= s@.len(),
            i == spaces_start(s@, s@.len() as int),
        decreases i,
    {
        let w: usize = space_width_until(s, i);
        if w == 0 {
            break;
        }
        i = i - w;
    }
    slice_subrange(s, 0, i)
}

/// The part of `s` between its leading and its trailing white space.
pub fn trimmed(s: &[u8]) -> (r: &[u8])
    ensures
        r@ == trim(s@),
{
    trimmed_end(trimmed_start(s))
}

} // verus!

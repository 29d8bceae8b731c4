//! Text without its markup: what stands between `<` and `>` is left out.

use vstd::prelude::*;

verus! {

/// Whether a scan of `body` ends inside markup: the last angle bracket in
/// `body` is a `<`.
pub open spec fn in_markup_after(body: Seq<u8>) -> bool
    decreases body.len(),
{
    if body.len() == 0 {
        false
    } else if body.last() == 0x3c {
        true
    } else if body.last() == 0x3e {
        false
    } else {
        in_markup_after(body.drop_last())
    }
}

/// The bytes of `body` that are no angle brackets and stand outside markup,
/// in their order.
pub open spec fn extracted(body: Seq<u8>) -> Seq<u8>
    decreases body.len(),
{
    if body.len() == 0 {
        Seq::empty()
    } else if body.last() == 0x3c || body.last() == 0x3e || in_markup_after(body.drop_last()) {
        extracted(body.drop_last())
    } else {
        extracted(body.drop_last()).push(body.last())
    }
}

/// Each byte as the character with that number.
pub open spec fn latin1(bytes: Seq<u8>) -> Seq<char> {
    Seq::new(bytes.len(), |i: int| bytes[i] as char)
}

/// Whether `text` holds neither `<` nor `>`.
pub open spec fn has_no_brackets(text: Seq<u8>) -> bool {
    forall|i: int| 0 <= i < text.len() ==> text[i] != 0x3c && text[i] != 0x3e
}

/// Text without angle brackets is extracted as it is.
pub proof fn law_plain_text_is_kept(text: Seq<u8>)
    requires
        has_no_brackets(text),
    ensures
        extracted(text) == text,
        !in_markup_after(text),
    decreases text.len(),
{
    if text.len() > 0 {
        law_plain_text_is_kept(text.drop_last());
        assert(extracted(text.drop_last()).push(text.last()) =~= text);
    }
}

/// What is extracted holds no angle brackets.
pub proof fn law_extracted_has_no_brackets(body: Seq<u8>)
    ensures
        has_no_brackets(extracted(body)),
    decreases body.len(),
{
    if body.len() > 0 {
        law_extracted_has_no_brackets(body.drop_last());
    }
}

/// Extracting twice gives what extracting once gives.
pub proof fn law_extract_is_idempotent(body: Seq<u8>)
    ensures
        extracted(extracted(body)) == extracted(body),
{
    law_extracted_has_no_brackets(body);
    law_plain_text_is_kept(extracted(body));
}

/// After text that ends outside markup, the scan starts afresh: what is
/// extracted from two such texts in a row is what is extracted from each.
pub proof fn law_extract_resumes(head: Seq<u8>, tail: Seq<u8>)
    requires
        !in_markup_after(head),
    ensures
        extracted(head + tail) == extracted(head) + extracted(tail),
        in_markup_after(head + tail) == in_markup_after(tail),
    decreases tail.len(),
{
    if tail.len() == 0 {
        assert(head + tail =~= head);
        assert(extracted(head) + extracted(tail) =~= extracted(head));
    } else {
        let whole = head + tail;
        assert(whole.drop_last() =~= head + tail.drop_last());
        assert(whole.last() == tail.last());
        law_extract_resumes(head, tail.drop_last());
        assert(extracted(whole) =~= extracted(head) + extracted(tail));
    }
}

/// A `<`, any text without `>`, and a `>`: nothing of it is extracted, and
/// the scan is outside markup after it.
pub proof fn law_tag_is_removed(inner: Seq<u8>)
    requires
        forall|i: int| 0 <= i < inner.len() ==> inner[i] != 0x3e,
    ensures
        extracted(seq![0x3cu8] + inner + seq![0x3eu8]) == Seq::<u8>::empty(),
        !in_markup_after(seq![0x3cu8] + inner + seq![0x3eu8]),
{
    let open = seq![0x3cu8] + inner;
    lemma_inside_tag(inner);
    assert((open + seq![0x3eu8]).drop_last() =~= open);
}

proof fn lemma_inside_tag(inner: Seq<u8>)
    requires
        forall|i: int| 0 <= i < inner.len() ==> inner[i] != 0x3e,
    ensures
        extracted(seq![0x3cu8] + inner) == Seq::<u8>::empty(),
        in_markup_after(seq![0x3cu8] + inner),
    decreases inner.len(),
{
    let open = seq![0x3cu8] + inner;
    if inner.len() == 0 {
        assert(open.drop_last() =~= Seq::<u8>::empty());
        assert(extracted(open.drop_last()) =~= Seq::<u8>::empty());
        assert(open.last() == 0x3c);
    } else {
        assert(open.drop_last() =~= seq![0x3cu8] + inner.drop_last());
        assert(open.last() == inner.last());
        lemma_inside_tag(inner.drop_last());
    }
}

/// Markup between two texts leaves the two texts: with `before` ending
/// outside markup and no `>` in `inner`, what is extracted from `before`,
/// `<`, `inner`, `>` and `after` in a row is what is extracted from `before`
/// and from `after`.
pub proof fn law_markup_is_removed(before: Seq<u8>, inner: Seq<u8>, after: Seq<u8>)
    requires
        !in_markup_after(before),
        forall|i: int| 0 <= i < inner.len() ==> inner[i] != 0x3e,
    ensures
        extracted(before + (seq![0x3cu8] + inner + seq![0x3eu8]) + after) == extracted(before)
            + extracted(after),
{
    let tag = seq![0x3cu8] + inner + seq![0x3eu8];
    law_tag_is_removed(inner);
    law_extract_resumes(before, tag);
    law_extract_resumes(before + tag, after);
    assert(extracted(before) + extracted(tag) =~= extracted(before));
}

} // verus!

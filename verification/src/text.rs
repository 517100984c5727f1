//! Text addressed by byte offsets.
//!
//! Strings are modelled by their characters, while searches report
//! positions in the UTF-8 encoding. The functions here cut a text at such
//! positions and say, over the characters, what the pieces are.

use vstd::prelude::*;
use vstd::string::*;
use vstd::utf8::*;

verus! {

/// The UTF-8 encoding of a text.
pub open spec fn bytes_of(text: Seq<char>) -> Seq<u8> {
    encode_utf8(text)
}

/// True when byte offset `at` does not fall inside a character of `text`.
pub open spec fn on_boundary(text: Seq<char>, at: int) -> bool {
    0 <= at <= bytes_of(text).len() && is_char_boundary(bytes_of(text), at)
}

/// True when `from..to` is a range of whole characters of `text`.
pub open spec fn is_span(text: Seq<char>, from: int, to: int) -> bool {
    from <= to && on_boundary(text, from) && on_boundary(text, to)
}

/// The characters of `text` that are encoded in bytes `from..to`.
pub open spec fn slice(text: Seq<char>, from: int, to: int) -> Seq<char> {
    decode_utf8(bytes_of(text).subrange(from, to))
}

/// A range of whole characters is itself well-formed UTF-8, and re-encodes
/// to the bytes it was cut from.
pub proof fn lemma_slice_bytes(text: Seq<char>, from: int, to: int)
    requires
        is_span(text, from, to),
    ensures
        valid_utf8(bytes_of(text).subrange(from, to)),
        bytes_of(slice(text, from, to)) == bytes_of(text).subrange(from, to),
{
    let bytes = bytes_of(text);
    encode_utf8_valid_utf8(text);
    valid_utf8_split(bytes, to);
    let head = bytes.subrange(0, to);
    lemma_boundary_in_prefix(bytes, to, from);
    valid_utf8_split(head, from);
    assert(head.subrange(from, head.len() as int) =~= bytes.subrange(from, to));
    decode_utf8_encode_utf8(bytes.subrange(from, to));
}

/// A character boundary of a text is also one of each of its prefixes that
/// reach it.
pub proof fn lemma_boundary_in_prefix(bytes: Seq<u8>, cut: int, at: int)
    requires
        valid_utf8(bytes),
        0 <= at <= cut <= bytes.len(),
        is_char_boundary(bytes, cut),
        is_char_boundary(bytes, at),
    ensures
        valid_utf8(bytes.subrange(0, cut)),
        is_char_boundary(bytes.subrange(0, cut), at),
{
    valid_utf8_split(bytes, cut);
    let head = bytes.subrange(0, cut);
    if at == cut {
        is_char_boundary_start_end_of_seq(head);
    } else {
        is_char_boundary_iff_not_is_continuation_byte(bytes, at);
        is_char_boundary_iff_not_is_continuation_byte(head, at);
    }
}

/// The whole of a text is the slice from its first to its last byte.
pub proof fn lemma_slice_all(text: Seq<char>)
    ensures
        is_span(text, 0, bytes_of(text).len() as int),
        slice(text, 0, bytes_of(text).len() as int) == text,
{
    let bytes = bytes_of(text);
    encode_utf8_valid_utf8(text);
    is_char_boundary_start_end_of_seq(bytes);
    assert(bytes.subrange(0, bytes.len() as int) =~= bytes);
    encode_utf8_decode_utf8(text);
}

/// True when byte offset `at` does not fall inside a character of `text`.
pub fn check_boundary(text: &str, at: usize) -> (ok: bool)
    ensures
        ok == on_boundary(text@, at as int),
{
    proof {
        encode_utf8_valid_utf8(text@);
        lemma_boundary_within(bytes_of(text@), at as int);
    }
    text.is_char_boundary(at)
}

/// True when `from..to` is a range of whole characters of `text`.
pub fn check_span(text: &str, from: usize, to: usize) -> (ok: bool)
    ensures
        ok == is_span(text@, from as int, to as int),
{
    proof {
        encode_utf8_valid_utf8(text@);
        lemma_boundary_within(bytes_of(text@), from as int);
        lemma_boundary_within(bytes_of(text@), to as int);
    }
    from <= to && text.is_char_boundary(from) && text.is_char_boundary(to)
}

/// A character boundary lies within the text.
pub proof fn lemma_boundary_within(bytes: Seq<u8>, at: int)
    requires
        valid_utf8(bytes),
    ensures
        is_char_boundary(bytes, at) ==> 0 <= at <= bytes.len(),
    decreases bytes.len(),
{
    if at != 0 && 0 <= at && at <= bytes.len() && bytes.len() > 0 {
        lemma_boundary_within(pop_first_scalar(bytes), at - length_of_first_scalar(bytes));
    }
}

/// The part of `text` between two byte offsets.
pub fn byte_slice<'a>(text: &'a str, from: usize, to: usize) -> (part: &'a str)
    requires
        is_span(text@, from as int, to as int),
    ensures
        part@ == slice(text@, from as int, to as int),
{
    proof {
        encode_utf8_valid_utf8(text@);
        lemma_boundary_in_prefix(bytes_of(text@), to as int, from as int);
    }
    let (head, _) = text.split_at(to);
    let (_, part) = head.split_at(from);
    proof {
        let bytes = bytes_of(text@);
        assert(part.spec_bytes() =~= bytes.subrange(from as int, to as int));
        encode_utf8_decode_utf8(part@);
    }
    part
}

/// The part of `text` from a byte offset to its end.
pub fn byte_tail<'a>(text: &'a str, from: usize) -> (part: &'a str)
    requires
        on_boundary(text@, from as int),
    ensures
        part@ == slice(text@, from as int, bytes_of(text@).len() as int),
{
    let (_, part) = text.split_at(from);
    proof {
        encode_utf8_decode_utf8(part@);
    }
    part
}

/// True when `needle` stands in `hay` at offset `at`.
pub open spec fn occurs_at(hay: Seq<u8>, needle: Seq<u8>, at: int) -> bool {
    0 <= at && at + needle.len() <= hay.len() && hay.subrange(at, at + needle.len()) == needle
}

/// The first offset at or after `from` at which `needle` stands in `hay`.
pub open spec fn first_occurrence_from(hay: Seq<u8>, needle: Seq<u8>, from: int) -> Option<int>
    decreases hay.len() - from + 1,
{
    if from < 0 || from + needle.len() > hay.len() {
        None
    } else if occurs_at(hay, needle, from) {
        Some(from)
    } else {
        first_occurrence_from(hay, needle, from + 1)
    }
}

/// The byte offset of the first occurrence of `needle` in `text`.
pub open spec fn spec_find(text: Seq<char>, needle: Seq<char>) -> Option<int> {
    first_occurrence_from(bytes_of(text), bytes_of(needle), 0)
}

/// What is found is an occurrence with none before it, and where nothing
/// is found there is no occurrence.
pub proof fn lemma_first_occurrence(hay: Seq<u8>, needle: Seq<u8>, from: int)
    requires
        0 <= from,
    ensures
        match first_occurrence_from(hay, needle, from) {
            Some(at) => from <= at && occurs_at(hay, needle, at) && forall|q: int|
                from <= q < at ==> !occurs_at(hay, needle, q),
            None => forall|q: int| from <= q ==> !occurs_at(hay, needle, q),
        },
    decreases hay.len() - from + 1,
{
    if from + needle.len() <= hay.len() && !occurs_at(hay, needle, from) {
        lemma_first_occurrence(hay, needle, from + 1);
    }
}

/// Finds the first occurrence of `needle` in `text`, as a byte offset.
pub fn find(text: &str, needle: &str) -> (found: Option<usize>)
    ensures
        match found {
            Some(at) => spec_find(text@, needle@) == Some(at as int),
            None => spec_find(text@, needle@) is None,
        },
{
    let hay = text.as_bytes();
    let pat = needle.as_bytes();
    let n = hay.len();
    let m = pat.len();
    if m > n {
        return None;
    }
    let mut i: usize = 0;
    while i <= n - m
        invariant
            m <= n,
            n == hay@.len(),
            m == pat@.len(),
            i <= n - m + 1,
            hay@ == bytes_of(text@),
            pat@ == bytes_of(needle@),
            first_occurrence_from(hay@, pat@, 0) == first_occurrence_from(hay@, pat@, i as int),
        decreases n - m + 1 - i,
    {
        let mut k: usize = 0;
        while k < m && hay[i + k] == pat[k]
            invariant
                m <= n,
                n == hay@.len(),
                m == pat@.len(),
                i <= n - m,
                k <= m,
                forall|j: int| 0 <= j < k ==> hay@[i + j] == pat@[j],
            decreases m - k,
        {
            k += 1;
        }
        if k == m {
            assert(hay@.subrange(i as int, i + m) =~= pat@);
            return Some(i);
        }
        assert(!occurs_at(hay@, pat@, i as int)) by {
            if occurs_at(hay@, pat@, i as int) {
                assert(hay@.subrange(i as int, i + m)[k as int] == pat@[k as int]);
            }
        }
        i += 1;
    }
    None
}

/// The offset at which the character before offset `at` starts, or 0
/// where there is none.
pub open spec fn spec_char_start_before(text: Seq<char>, at: int) -> int
    decreases at,
{
    if at <= 0 {
        0
    } else if on_boundary(text, at - 1) {
        at - 1
    } else {
        spec_char_start_before(text, at - 1)
    }
}

/// The start of the character before an offset is a character boundary
/// before that offset.
pub proof fn lemma_char_start_before(text: Seq<char>, at: int)
    requires
        0 <= at <= bytes_of(text).len(),
    ensures
        0 <= spec_char_start_before(text, at) <= at,
        at > 0 ==> spec_char_start_before(text, at) < at,
        on_boundary(text, spec_char_start_before(text, at)),
    decreases at,
{
    lemma_slice_all(text);
    if at > 0 && !on_boundary(text, at - 1) {
        lemma_char_start_before(text, at - 1);
    }
}

/// Finds the offset at which the character before offset `at` starts.
pub fn char_start_before(text: &str, at: usize) -> (start: usize)
    requires
        at <= bytes_of(text@).len(),
    ensures
        start == spec_char_start_before(text@, at as int),
{
    if at == 0 {
        return 0;
    }
    let mut start: usize = at - 1;
    proof {
        lemma_slice_all(text@);
    }
    while !check_boundary(text, start)
        invariant
            start < at,
            on_boundary(text@, 0),
            spec_char_start_before(text@, at as int) == spec_char_start_before(
                text@,
                start as int + 1,
            ),
        decreases start,
    {
        start -= 1;
    }
    start
}

} // verus!

//! Replacing what a pattern matches in a text.
//!
//! The matching is done by the regular-expression engine; what is done
//! with the matches is decided here.

use vstd::prelude::*;
use vstd::string::*;

use crate::style::{ansi_paint, Style};
use crate::text::{
    byte_slice, byte_tail, bytes_of, check_span, is_span, lemma_slice_all, on_boundary, slice,
};

verus! {

/// Where a pattern matched, in byte offsets into the searched text.
#[derive(Clone, Copy, Debug)]
pub struct Capture {
    /// First byte of the match.
    pub start: usize,
    /// One past the last byte of the match.
    pub end: usize,
    /// First and one past the last byte of what the pattern's first group
    /// matched, if the group took part in the match.
    pub group: Option<(usize, usize)>,
}

/// The successive non-overlapping matches of `pattern` in `haystack`, as
/// the regular-expression engine reports them. Empty when the pattern is
/// not a valid regular expression.
pub uninterp spec fn spec_captures(pattern: Seq<char>, haystack: Seq<char>) -> Seq<Capture>;

/// Trusted: `regex::Regex::new` followed by `regex::Regex::captures_iter`.
///
/// The claim is only that the matches found depend on nothing but the
/// pattern and the searched text. Nothing is assumed about where the
/// matches lie.
#[verifier::external_body]
pub(crate) fn captures(pattern: &str, haystack: &str) -> (found: Vec<Capture>)
    ensures
        found@ == spec_captures(pattern@, haystack@),
{
    let mut found = Vec::new();
    if let Ok(regex) = regex::Regex::new(pattern) {
        for caps in regex.captures_iter(haystack) {
            let whole = caps.get_match();
            let group = caps.get(1).map(|inner| (inner.start(), inner.end()));
            found.push(Capture { start: whole.start(), end: whole.end(), group });
        }
    }
    found
}

/// The end of the match before match `i`, or the start of the text.
pub open spec fn floor_at(found: Seq<Capture>, i: int) -> int {
    if i <= 0 {
        0
    } else {
        found[i - 1].end as int
    }
}

/// True when a match starts at or after `floor`, covers whole characters
/// of `text`, and has a first group that does so too.
pub open spec fn capture_fits(text: Seq<char>, floor: int, capture: Capture) -> bool {
    &&& floor <= capture.start
    &&& is_span(text, capture.start as int, capture.end as int)
    &&& capture.group matches Some(group)
    &&& is_span(text, group.0 as int, group.1 as int)
}

/// True when the matches lie in `text` one after the other, each with its
/// first group.
pub open spec fn captures_fit(text: Seq<char>, found: Seq<Capture>) -> bool {
    forall|i: int|
        0 <= i < found.len() ==> capture_fits(text, floor_at(found, i), #[trigger] found[i])
}

/// What the first group of a match matched.
pub open spec fn group_text(text: Seq<char>, capture: Capture) -> Seq<char> {
    match capture.group {
        Some(group) => slice(text, group.0 as int, group.1 as int),
        None => seq![],
    }
}

/// The text up to the end of match `n - 1`, with each match replaced by
/// its insert.
pub open spec fn spliced(
    text: Seq<char>,
    found: Seq<Capture>,
    inserts: Seq<Seq<char>>,
    n: nat,
) -> Seq<char>
    decreases n,
{
    if n == 0 {
        seq![]
    } else {
        spliced(text, found, inserts, (n - 1) as nat) + slice(
            text,
            floor_at(found, n - 1),
            found[n - 1].start as int,
        ) + inserts[n - 1]
    }
}

/// The text with each match replaced by its insert.
pub open spec fn spec_splice(text: Seq<char>, found: Seq<Capture>, inserts: Seq<Seq<char>>) -> Seq<
    char,
> {
    spliced(text, found, inserts, found.len()) + slice(
        text,
        floor_at(found, found.len() as int),
        bytes_of(text).len() as int,
    )
}

/// The characters of each of a list of strings.
pub open spec fn texts_of(strings: Seq<String>) -> Seq<Seq<char>> {
    strings.map_values(|s: String| s@)
}

/// Checks that a match starts at or after `floor`, covers whole characters
/// of `text`, and has a first group that does so too.
pub fn check_capture(text: &str, floor: usize, capture: Capture) -> (ok: bool)
    ensures
        ok == capture_fits(text@, floor as int, capture),
{
    match capture.group {
        Some(group) => floor <= capture.start && check_span(text, capture.start, capture.end)
            && check_span(text, group.0, group.1),
        None => false,
    }
}

/// Checks that matches lie in `text` one after the other, each with its
/// first group.
pub fn check_captures(text: &str, found: &Vec<Capture>) -> (ok: bool)
    ensures
        ok == captures_fit(text@, found@),
{
    let mut floor: usize = 0;
    let mut i: usize = 0;
    while i < found.len()
        invariant
            i <= found.len(),
            floor == floor_at(found@, i as int),
            forall|j: int|
                0 <= j < i ==> capture_fits(text@, floor_at(found@, j), #[trigger] found@[j]),
        decreases found.len() - i,
    {
        let capture = found[i];
        if !check_capture(text, floor, capture) {
            return false;
        }
        floor = capture.end;
        i += 1;
    }
    true
}

/// Replaces each match in `text` by the insert given for it.
pub fn splice(text: &str, found: &Vec<Capture>, inserts: &Vec<String>) -> (r: String)
    requires
        captures_fit(text@, found@),
        inserts@.len() == found@.len(),
    ensures
        r@ == spec_splice(text@, found@, texts_of(inserts@)),
{
    let mut r = String::new();
    let mut floor: usize = 0;
    let mut i: usize = 0;
    proof {
        lemma_slice_all(text@);
    }
    while i < found.len()
        invariant
            i <= found.len(),
            inserts@.len() == found@.len(),
            captures_fit(text@, found@),
            floor == floor_at(found@, i as int),
            on_boundary(text@, floor as int),
            r@ == spliced(text@, found@, texts_of(inserts@), i as nat),
        decreases found.len() - i,
    {
        let capture = found[i];
        r.append(byte_slice(text, floor, capture.start));
        r.append(inserts[i].as_str());
        floor = capture.end;
        i += 1;
    }
    r.append(byte_tail(text, floor));
    r
}

/// The text with each of the given matches replaced by what the first
/// group of the match covers, shown in `style`. Unchanged where the
/// matches do not lie in the text one after the other, each with its
/// first group.
pub open spec fn spec_restyle_found(text: Seq<char>, found: Seq<Capture>, style: Style) -> Seq<
    char,
> {
    if captures_fit(text, found) {
        spec_splice(
            text,
            found,
            Seq::new(found.len(), |i: int| style.spec_paint(group_text(text, found[i]))),
        )
    } else {
        text
    }
}

/// The text with the first group of each match of `pattern` shown in
/// `style`, in place of the match.
pub open spec fn spec_restyle(text: Seq<char>, pattern: Seq<char>, style: Style) -> Seq<char> {
    spec_restyle_found(text, spec_captures(pattern, text), style)
}

/// Replaces each of the given matches in `text` by what the first group of
/// the match covers, shown in `style`. Matches that do not lie in the text
/// one after the other, each with its first group, leave the text as it
/// is.
pub fn restyle_found(text: &str, found: &Vec<Capture>, style: &Style) -> (r: String)
    ensures
        r@ == spec_restyle_found(text@, found@, *style),
{
    if !check_captures(text, found) {
        return String::from_str(text);
    }
    let mut inserts: Vec<String> = Vec::new();
    let mut i: usize = 0;
    while i < found.len()
        invariant
            i <= found.len(),
            captures_fit(text@, found@),
            inserts@.len() == i,
            forall|j: int|
                0 <= j < i ==> (#[trigger] inserts@[j])@ == style.spec_paint(
                    group_text(text@, found@[j]),
                ),
        decreases found.len() - i,
    {
        let capture = found[i];
        match capture.group {
            Some(group) => {
                inserts.push(ansi_paint(style, byte_slice(text, group.0, group.1)));
            },
            None => {
                inserts.push(String::new());
            },
        }
        i += 1;
    }
    assert(texts_of(inserts@) =~= Seq::new(
        found@.len(),
        |i: int| style.spec_paint(group_text(text@, found@[i])),
    ));
    splice(text, found, &inserts)
}

/// Replaces each match of `pattern` in `text` by what the pattern's first
/// group matched, shown in `style`.
pub fn restyle(text: &str, pattern: &str, style: &Style) -> (r: String)
    ensures
        r@ == spec_restyle(text@, pattern@, *style),
{
    let found = captures(pattern, text);
    restyle_found(text, &found, style)
}

/// Restyling a text for no matches changes nothing.
pub proof fn lemma_restyle_nothing_found(text: Seq<char>, found: Seq<Capture>, style: Style)
    requires
        found.len() == 0,
    ensures
        spec_restyle_found(text, found, style) == text,
{
    lemma_slice_all(text);
}

/// Restyling a text in which the pattern matches nothing changes nothing.
pub proof fn lemma_restyle_without_match(text: Seq<char>, pattern: Seq<char>, style: Style)
    requires
        spec_captures(pattern, text).len() == 0,
    ensures
        spec_restyle(text, pattern, style) == text,
{
    lemma_restyle_nothing_found(text, spec_captures(pattern, text), style);
}

} // verus!

//! The stages that turn the documentation of a rule, as it is stored, into
//! text for a terminal.
//!
//! Each stage takes the whole text of one document and gives the text for
//! the next stage. A stage that finds nothing to do gives the text back as
//! it was. The colours of code are not made here: the code of the fenced
//! blocks is handed out, and the caller hands its renderings in.

use vstd::prelude::*;
use vstd::string::*;

use crate::pattern::{
    capture_fits, captures, captures_fit, check_captures, floor_at, group_text,
    lemma_restyle_nothing_found, lemma_restyle_without_match, restyle, restyle_found,
    spec_captures, spec_restyle, spec_restyle_found, spec_splice, splice, texts_of, Capture,
};
use crate::style::Style;
use crate::text::{
    byte_slice, byte_tail, bytes_of, char_start_before, check_boundary, find,
    first_occurrence_from, lemma_char_start_before, lemma_first_occurrence, lemma_slice_all,
    lemma_slice_bytes, occurs_at, on_boundary, slice, spec_char_start_before, spec_find,
};

verus! {

/// The number of bytes of boilerplate that every stored document starts
/// with.
pub const PRELUDE_LEN: usize = 70;

/// The heading of the section on configuration, from which on a document
/// is not shown.
pub const CONFIG_MARKER: &'static str = "# Config";

/// The start of a block of further examples, from which on a document is
/// not shown.
pub const DETAILS_MARKER: &'static str = "<details>";

/// Matches a heading line; its first group is the heading's text.
pub const HEADING_PATTERN: &'static str = "(?m)^#+ (.*)";

/// The byte that ends a line.
pub const NEWLINE: u8 = 10;

/// The byte that a heading line starts with.
pub const HASH: u8 = 35;

/// The byte that stands between the marks of a heading and its text.
pub const SPACE: u8 = 32;

/// Matches a fenced block of JavaScript; its first group is the code.
pub const CODE_BLOCK_PATTERN: &'static str = "```js\n([\\s\\S]*?)\n```";

/// Matches a span of inline code; its first group is the code.
pub const INLINE_CODE_PATTERN: &'static str = "`(.+?)`";

/// The document without its boilerplate, or `None` where the document is
/// shorter than the boilerplate or the boilerplate would end inside a
/// character.
pub open spec fn spec_strip_prelude(text: Seq<char>) -> Option<Seq<char>> {
    if on_boundary(text, PRELUDE_LEN as int) {
        Some(slice(text, PRELUDE_LEN as int, bytes_of(text).len() as int))
    } else {
        None
    }
}

/// Removes the boilerplate that a stored document starts with.
pub fn strip_prelude(text: &str) -> (stripped: Option<String>)
    ensures
        match stripped {
            Some(rest) => spec_strip_prelude(text@) == Some(rest@),
            None => spec_strip_prelude(text@) is None,
        },
{
    if check_boundary(text, PRELUDE_LEN) {
        Some(String::from_str(byte_tail(text, PRELUDE_LEN)))
    } else {
        None
    }
}

/// The offset of the first of the two markers that end what is shown of a
/// document.
pub open spec fn spec_first_marker(text: Seq<char>) -> Option<int> {
    match (spec_find(text, CONFIG_MARKER@), spec_find(text, DETAILS_MARKER@)) {
        (Some(config), Some(details)) => Some(
            if config <= details {
                config
            } else {
                details
            },
        ),
        (Some(config), None) => Some(config),
        (None, Some(details)) => Some(details),
        (None, None) => None,
    }
}

/// The document up to the first marker, less the one character that
/// stands before the marker. Without a marker, the document as it is.
pub open spec fn spec_strip_trailing_sections(text: Seq<char>) -> Seq<char> {
    match spec_first_marker(text) {
        Some(at) => slice(text, 0, spec_char_start_before(text, at)),
        None => text,
    }
}

/// Finds the first of the two markers that end what is shown of a
/// document.
pub fn first_marker(text: &str) -> (found: Option<usize>)
    ensures
        match found {
            Some(at) => spec_first_marker(text@) == Some(at as int) && at <= bytes_of(text@).len(),
            None => spec_first_marker(text@) is None,
        },
{
    proof {
        lemma_first_occurrence(bytes_of(text@), bytes_of(CONFIG_MARKER@), 0);
        lemma_first_occurrence(bytes_of(text@), bytes_of(DETAILS_MARKER@), 0);
    }
    match (find(text, CONFIG_MARKER), find(text, DETAILS_MARKER)) {
        (Some(config), Some(details)) => Some(
            if config <= details {
                config
            } else {
                details
            },
        ),
        (Some(config), None) => Some(config),
        (None, Some(details)) => Some(details),
        (None, None) => None,
    }
}

/// Cuts a document off where its section on configuration or its further
/// examples begin, whichever comes first, together with the one character
/// before that.
pub fn strip_trailing_sections(text: &str) -> (kept: String)
    ensures
        kept@ == spec_strip_trailing_sections(text@),
{
    match first_marker(text) {
        Some(at) => {
            let cut = char_start_before(text, at);
            proof {
                lemma_char_start_before(text@, at as int);
                lemma_slice_all(text@);
            }
            String::from_str(byte_slice(text, 0, cut))
        },
        None => String::from_str(text),
    }
}

/// A text that no marker occurs in has no first occurrence of it.
proof fn lemma_cut_has_no_marker(text: Seq<char>, marker: Seq<char>, at: int, cut: int)
    requires
        0 <= cut <= at <= bytes_of(text).len(),
        cut < at || at == 0,
        on_boundary(text, cut),
        bytes_of(marker).len() > 0,
        match spec_find(text, marker) {
            Some(first) => at <= first,
            None => true,
        },
    ensures
        spec_find(slice(text, 0, cut), marker) is None,
{
    let hay = bytes_of(text);
    let needle = bytes_of(marker);
    lemma_slice_all(text);
    lemma_slice_bytes(text, 0, cut);
    let head = hay.subrange(0, cut);
    lemma_first_occurrence(hay, needle, 0);
    lemma_first_occurrence(head, needle, 0);
    if first_occurrence_from(head, needle, 0) is Some {
        let q = first_occurrence_from(head, needle, 0)->0;
        assert(hay.subrange(q, q + needle.len()) =~= head.subrange(q, q + needle.len()));
        assert(occurs_at(hay, needle, q));
    }
}

/// Cutting a document off at its markers a second time changes nothing.
pub proof fn lemma_strip_trailing_sections_idempotent(text: Seq<char>)
    ensures
        spec_strip_trailing_sections(spec_strip_trailing_sections(text))
            == spec_strip_trailing_sections(text),
{
    reveal_strlit("# Config");
    reveal_strlit("<details>");
    lemma_nonempty_bytes(CONFIG_MARKER@);
    lemma_nonempty_bytes(DETAILS_MARKER@);
    match spec_first_marker(text) {
        Some(at) => {
            lemma_first_occurrence(bytes_of(text), bytes_of(CONFIG_MARKER@), 0);
            lemma_first_occurrence(bytes_of(text), bytes_of(DETAILS_MARKER@), 0);
            lemma_char_start_before(text, at);
            let cut = spec_char_start_before(text, at);
            lemma_cut_has_no_marker(text, CONFIG_MARKER@, at, cut);
            lemma_cut_has_no_marker(text, DETAILS_MARKER@, at, cut);
        },
        None => {},
    }
}

/// A text with a character in it has a byte in it.
proof fn lemma_nonempty_bytes(text: Seq<char>)
    requires
        text.len() > 0,
    ensures
        bytes_of(text).len() > 0,
{
    vstd::utf8::encode_utf8_first_scalar(text);
}

/// True when a line starts at byte offset `at`.
pub open spec fn spec_line_starts_at(bytes: Seq<u8>, at: int) -> bool {
    0 <= at <= bytes.len() && (at == 0 || bytes[at - 1] == NEWLINE)
}

/// The number of `#` that stand one after the other from offset `at` on.
pub open spec fn spec_hashes_from(bytes: Seq<u8>, at: int) -> nat
    decreases bytes.len() - at,
{
    if 0 <= at < bytes.len() && bytes[at] == HASH {
        1 + spec_hashes_from(bytes, at + 1)
    } else {
        0
    }
}

/// True when a heading line starts at byte offset `at`: a line that
/// begins with one or more `#` and a space.
pub open spec fn spec_heading_at(text: Seq<char>, at: int) -> bool {
    let bytes = bytes_of(text);
    let marks = spec_hashes_from(bytes, at);
    &&& spec_line_starts_at(bytes, at)
    &&& marks >= 1
    &&& at + marks < bytes.len()
    &&& bytes[at + marks] == SPACE
}

/// True when a match is a heading line whose text is the first group: it
/// starts where a heading line starts, and its first group starts after
/// the marks and the space.
pub open spec fn spec_is_heading(text: Seq<char>, capture: Capture) -> bool {
    &&& spec_heading_at(text, capture.start as int)
    &&& capture.group matches Some(group)
    &&& group.0 == capture.start + spec_hashes_from(bytes_of(text), capture.start as int) + 1
}

/// True when every one of the matches is a heading line.
pub open spec fn spec_all_headings(text: Seq<char>, found: Seq<Capture>) -> bool {
    forall|i: int| 0 <= i < found.len() ==> spec_is_heading(text, #[trigger] found[i])
}

/// The document with each of the given heading lines replaced by the
/// heading's text in bold. Unchanged where one of the matches is no
/// heading line.
pub open spec fn spec_headings_shown(text: Seq<char>, found: Seq<Capture>) -> Seq<char> {
    if spec_all_headings(text, found) {
        spec_restyle_found(text, found, Style::spec_heading())
    } else {
        text
    }
}

/// The document with each heading line replaced by the heading's text in
/// bold.
pub open spec fn spec_highlight_headings(text: Seq<char>) -> Seq<char> {
    spec_headings_shown(text, spec_captures(HEADING_PATTERN@, text))
}

/// The document with each span of inline code replaced by the code in
/// light on dark.
pub open spec fn spec_highlight_inline_code(text: Seq<char>) -> Seq<char> {
    spec_restyle(text, INLINE_CODE_PATTERN@, Style::spec_inline_code())
}

/// Checks that a match is a heading line whose text is the first group.
pub fn check_heading(text: &str, capture: Capture) -> (ok: bool)
    ensures
        ok == spec_is_heading(text@, capture),
{
    let bytes = text.as_bytes();
    let n = bytes.len();
    let at = capture.start;
    if at > n {
        return false;
    }
    if at > 0 && bytes[at - 1] != NEWLINE {
        return false;
    }
    let mut marks: usize = 0;
    while at + marks < n && bytes[at + marks] == HASH
        invariant
            at <= n,
            n == bytes@.len(),
            at + marks <= n,
            spec_hashes_from(bytes@, at as int) == marks + spec_hashes_from(bytes@, at + marks),
        decreases n - at - marks,
    {
        marks += 1;
    }
    if marks == 0 || at + marks >= n || bytes[at + marks] != SPACE {
        return false;
    }
    match capture.group {
        Some(group) => group.0 == at + marks + 1,
        None => false,
    }
}

/// Checks that every one of the matches is a heading line.
pub fn check_headings(text: &str, found: &Vec<Capture>) -> (ok: bool)
    ensures
        ok == spec_all_headings(text@, found@),
{
    let mut i: usize = 0;
    while i < found.len()
        invariant
            i <= found.len(),
            forall|j: int| 0 <= j < i ==> spec_is_heading(text@, #[trigger] found@[j]),
        decreases found.len() - i,
    {
        if !check_heading(text, found[i]) {
            return false;
        }
        i += 1;
    }
    true
}

/// Replaces each of the given heading lines by the heading's text in
/// bold. Where one of the matches is no heading line, or the matches do
/// not lie in the text one after the other, the text stays as it is.
pub fn show_headings(text: &str, found: &Vec<Capture>) -> (shown: String)
    ensures
        shown@ == spec_headings_shown(text@, found@),
{
    if check_headings(text, found) {
        restyle_found(text, found, &Style::heading())
    } else {
        String::from_str(text)
    }
}

/// Replaces each heading line, one or more `#` and a space before a text
/// at the start of a line, by the text in bold.
pub fn highlight_headings(text: &str) -> (shown: String)
    ensures
        shown@ == spec_highlight_headings(text@),
{
    let found = captures(HEADING_PATTERN, text);
    show_headings(text, &found)
}

/// Replaces each span of inline code, a text between backticks, by the
/// text in light on dark.
pub fn highlight_inline_code(text: &str) -> (shown: String)
    ensures
        shown@ == spec_highlight_inline_code(text@),
{
    restyle(text, INLINE_CODE_PATTERN, &Style::inline_code())
}

/// A document without a heading line is shown as it is: where no line
/// begins with one or more `#` and a space, highlighting the headings
/// changes nothing, whatever the pattern matches.
pub proof fn lemma_no_heading_line_unchanged(text: Seq<char>)
    requires
        forall|at: int| !spec_heading_at(text, at),
    ensures
        spec_highlight_headings(text) == text,
{
    let found = spec_captures(HEADING_PATTERN@, text);
    if found.len() == 0 {
        lemma_restyle_nothing_found(text, found, Style::spec_heading());
    } else {
        assert(!spec_is_heading(text, found[0]));
    }
}

/// A document in which the pattern for headings matches nothing is shown
/// as it is.
pub proof fn lemma_no_heading_unchanged(text: Seq<char>)
    requires
        spec_captures(HEADING_PATTERN@, text).len() == 0,
    ensures
        spec_highlight_headings(text) == text,
{
    lemma_restyle_nothing_found(
        text,
        spec_captures(HEADING_PATTERN@, text),
        Style::spec_heading(),
    );
}

/// A document without a span of inline code is shown as it is.
pub proof fn lemma_no_inline_code_unchanged(text: Seq<char>)
    requires
        spec_captures(INLINE_CODE_PATTERN@, text).len() == 0,
    ensures
        spec_highlight_inline_code(text) == text,
{
    lemma_restyle_without_match(text, INLINE_CODE_PATTERN@, Style::spec_inline_code());
}

/// Highlighted code between two blank lines.
pub open spec fn spec_framed(colored: Seq<char>) -> Seq<char> {
    seq!['\n'] + colored + seq!['\n']
}

/// Each of a list of highlighted pieces of code between two blank lines.
pub open spec fn spec_all_framed(colored: Seq<Seq<char>>) -> Seq<Seq<char>> {
    colored.map_values(|code: Seq<char>| spec_framed(code))
}

/// The document with each of the given fenced blocks replaced by the
/// rendering given for its code, between two blank lines. Unchanged where
/// the blocks do not lie in the text one after the other, or there is not
/// one rendering for each block.
pub open spec fn spec_code_blocks_shown(
    text: Seq<char>,
    found: Seq<Capture>,
    colored: Seq<Seq<char>>,
) -> Seq<char> {
    if captures_fit(text, found) && colored.len() == found.len() {
        spec_splice(text, found, spec_all_framed(colored))
    } else {
        text
    }
}

/// The code of each of the given fenced blocks: what the first group of
/// the match covers. Where the blocks do not lie in the text one after
/// the other, each with its first group, the code of every block is taken
/// to be empty.
pub open spec fn spec_block_codes(text: Seq<char>, found: Seq<Capture>) -> Seq<Seq<char>> {
    if captures_fit(text, found) {
        Seq::new(found.len(), |i: int| group_text(text, found[i]))
    } else {
        Seq::new(found.len(), |i: int| Seq::<char>::empty())
    }
}

/// The code of each fenced block of JavaScript in a document, in the
/// order of the blocks.
pub open spec fn spec_code_of_blocks(text: Seq<char>) -> Seq<Seq<char>> {
    spec_block_codes(text, spec_captures(CODE_BLOCK_PATTERN@, text))
}

/// The document with each fenced block of JavaScript replaced by the
/// rendering given for its code, between two blank lines. Unchanged where
/// there is not one rendering for each block.
pub open spec fn spec_highlight_code_blocks(text: Seq<char>, colored: Seq<Seq<char>>) -> Seq<
    char,
> {
    spec_code_blocks_shown(text, spec_captures(CODE_BLOCK_PATTERN@, text), colored)
}

/// Puts highlighted code between two blank lines.
pub fn framed(colored: &str) -> (block: String)
    ensures
        block@ == spec_framed(colored@),
{
    proof {
        reveal_strlit("\n");
    }
    let mut block = String::from_str("\n");
    block.append(colored);
    block.append("\n");
    block
}

/// Replaces each of the given fenced blocks by the rendering given for
/// its code, between two blank lines. Where the blocks do not lie in the
/// text one after the other, or there is not one rendering for each
/// block, the text stays as it is.
pub fn show_code_blocks(text: &str, found: &Vec<Capture>, colored: &Vec<String>) -> (shown: String)
    ensures
        shown@ == spec_code_blocks_shown(text@, found@, texts_of(colored@)),
{
    if !check_captures(text, found) || colored.len() != found.len() {
        return String::from_str(text);
    }
    let mut inserts: Vec<String> = Vec::new();
    let mut i: usize = 0;
    while i < colored.len()
        invariant
            i <= colored.len(),
            inserts@.len() == i,
            forall|j: int|
                0 <= j < i ==> (#[trigger] inserts@[j])@ == spec_framed(colored@[j]@),
        decreases colored.len() - i,
    {
        inserts.push(framed(colored[i].as_str()));
        i += 1;
    }
    assert(texts_of(inserts@) =~= spec_all_framed(texts_of(colored@)));
    splice(text, found, &inserts)
}

/// Hands out the code of each of the given fenced blocks, for a
/// colorizer to render. Where the blocks do not lie in the text one after
/// the other, each with its first group, every code handed out is empty.
pub fn block_codes(text: &str, found: &Vec<Capture>) -> (codes: Vec<String>)
    ensures
        texts_of(codes@) == spec_block_codes(text@, found@),
{
    let fit = check_captures(text, found);
    let mut codes: Vec<String> = Vec::new();
    let mut i: usize = 0;
    while i < found.len()
        invariant
            i <= found.len(),
            codes@.len() == i,
            fit == captures_fit(text@, found@),
            forall|j: int|
                0 <= j < i ==> (#[trigger] codes@[j])@ == spec_block_codes(text@, found@)[j],
        decreases found.len() - i,
    {
        let code = match found[i].group {
            Some(group) => if fit {
                assert(capture_fits(text@, floor_at(found@, i as int), found@[i as int]));
                String::from_str(byte_slice(text, group.0, group.1))
            } else {
                String::new()
            },
            None => String::new(),
        };
        codes.push(code);
        i += 1;
    }
    assert(texts_of(codes@) =~= spec_block_codes(text@, found@));
    codes
}

/// Hands out the code of each fenced block of JavaScript in a document,
/// for a colorizer to render.
pub fn code_of_blocks(text: &str) -> (codes: Vec<String>)
    ensures
        texts_of(codes@) == spec_code_of_blocks(text@),
{
    let found = captures(CODE_BLOCK_PATTERN, text);
    block_codes(text, &found)
}

/// Replaces each fenced block of JavaScript by the rendering given for
/// its code, between two blank lines. Where there is not one rendering
/// for each block, the document stays as it is.
pub fn highlight_code_blocks(text: &str, colored: &Vec<String>) -> (shown: String)
    ensures
        shown@ == spec_highlight_code_blocks(text@, texts_of(colored@)),
{
    let found = captures(CODE_BLOCK_PATTERN, text);
    show_code_blocks(text, &found, colored)
}

/// A document without a fenced block of JavaScript is shown as it is,
/// whatever renderings are given.
pub proof fn lemma_no_code_block_unchanged(text: Seq<char>, colored: Seq<Seq<char>>)
    requires
        spec_captures(CODE_BLOCK_PATTERN@, text).len() == 0,
    ensures
        spec_highlight_code_blocks(text, colored) == text,
{
    lemma_slice_all(text);
}

} // verus!

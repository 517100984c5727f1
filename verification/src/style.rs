//! Terminal styles and the escape sequences that switch them on and off.

use rslint_lexer::ansi_term;
use vstd::prelude::*;

use crate::number::spec_decimal;

verus! {

/// A terminal colour.
#[derive(Clone, Copy, Debug, PartialEq, Eq, Structural)]
pub enum Color {
    White,
    Red,
    Yellow,
    Green,
    /// A colour given by its red, green and blue parts.
    Rgb(u8, u8, u8),
}

/// How a piece of text is shown on a terminal.
#[derive(Clone, Copy, Debug, PartialEq, Eq, Structural)]
pub struct Style {
    pub bold: bool,
    pub foreground: Option<Color>,
    pub background: Option<Color>,
}

impl Color {
    /// The parameters that select this colour in an escape sequence, for the
    /// background where `background` is set and for the text otherwise.
    pub open spec fn spec_code(self, background: bool) -> Seq<char> {
        let lead = if background {
            '4'
        } else {
            '3'
        };
        match self {
            Color::Red => seq![lead, '1'],
            Color::Green => seq![lead, '2'],
            Color::Yellow => seq![lead, '3'],
            Color::White => seq![lead, '7'],
            Color::Rgb(r, g, b) => seq![lead, '8', ';', '2', ';'] + spec_decimal(r as nat)
                + seq![';'] + spec_decimal(g as nat) + seq![';'] + spec_decimal(b as nat),
        }
    }
}

/// A list of escape-sequence parameters with one more added.
pub open spec fn with_code(codes: Seq<char>, code: Seq<char>) -> Seq<char> {
    if codes.len() == 0 {
        code
    } else {
        codes + seq![';'] + code
    }
}

impl Style {
    /// True when the style changes nothing.
    pub open spec fn is_plain(self) -> bool {
        !self.bold && self.foreground is None && self.background is None
    }

    /// The parameters of the escape sequence that switches the style on:
    /// bold, then the background, then the text colour.
    pub open spec fn spec_codes(self) -> Seq<char> {
        let bold: Seq<char> = if self.bold {
            seq!['1']
        } else {
            seq![]
        };
        let ground = match self.background {
            Some(color) => with_code(bold, color.spec_code(true)),
            None => bold,
        };
        match self.foreground {
            Some(color) => with_code(ground, color.spec_code(false)),
            None => ground,
        }
    }

    /// What is written before a text to switch the style on.
    pub open spec fn spec_prefix(self) -> Seq<char> {
        if self.is_plain() {
            seq![]
        } else {
            seq!['\x1b', '['] + self.spec_codes() + seq!['m']
        }
    }

    /// What is written after a text to switch the style off again.
    pub open spec fn spec_suffix(self) -> Seq<char> {
        if self.is_plain() {
            seq![]
        } else {
            seq!['\x1b', '[', '0', 'm']
        }
    }

    /// A text wrapped in the escape sequences of the style.
    pub open spec fn spec_paint(self, text: Seq<char>) -> Seq<char> {
        self.spec_prefix() + text + self.spec_suffix()
    }

    /// Bold bright text, as headings are shown.
    pub open spec fn spec_heading() -> Style {
        Style { bold: true, foreground: Some(Color::White), background: None }
    }

    /// Light text on a dark grey background, as inline code is shown.
    pub open spec fn spec_inline_code() -> Style {
        Style {
            bold: false,
            foreground: Some(Color::White),
            background: Some(Color::Rgb(42, 42, 42)),
        }
    }

    /// Green text, as the label of a link is shown.
    pub open spec fn spec_label() -> Style {
        Style { bold: false, foreground: Some(Color::Green), background: None }
    }

    /// Bold bright text, as headings are shown.
    pub fn heading() -> (style: Style)
        ensures
            style == Style::spec_heading(),
    {
        Style { bold: true, foreground: Some(Color::White), background: None }
    }

    /// Light text on a dark grey background, as inline code is shown.
    pub fn inline_code() -> (style: Style)
        ensures
            style == Style::spec_inline_code(),
    {
        Style {
            bold: false,
            foreground: Some(Color::White),
            background: Some(Color::Rgb(42, 42, 42)),
        }
    }

    /// Green text, as the label of a link is shown.
    pub fn label() -> (style: Style)
        ensures
            style == Style::spec_label(),
    {
        Style { bold: false, foreground: Some(Color::Green), background: None }
    }
}

/// Trusted: `ansi_term::Style::paint`, with the painted text written out
/// through its `Display` impl.
///
/// The claim is that the output is the text between the style's prefix and
/// suffix. The prefix is empty for a plain style, and otherwise `ESC [`,
/// the parameters separated by `;` and `m`: `1` for bold, then the
/// background colour, then the text colour, where a named colour is `4n`
/// or `3n` and an RGB colour `48;2;r;g;b` or `38;2;r;g;b`. The suffix is
/// empty for a plain style and `ESC [ 0 m` otherwise.
#[verifier::external_body]
pub(crate) fn ansi_paint(style: &Style, text: &str) -> (painted: String)
    ensures
        painted@ == style.spec_paint(text@),
{
    let colour = |color: Color| match color {
        Color::White => ansi_term::Colour::White,
        Color::Red => ansi_term::Colour::Red,
        Color::Yellow => ansi_term::Colour::Yellow,
        Color::Green => ansi_term::Colour::Green,
        Color::Rgb(r, g, b) => ansi_term::Colour::RGB(r, g, b),
    };
    let look = ansi_term::Style {
        foreground: style.foreground.map(colour),
        background: style.background.map(colour),
        is_bold: style.bold,
        ..ansi_term::Style::default()
    };
    look.paint(text).to_string()
}

} // verus!

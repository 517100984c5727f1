//! The closing lines of a run: how many files failed, warned and passed.

use vstd::prelude::*;
use vstd::string::*;

use crate::number::{decimal, spec_decimal};
use crate::outcome::Outcome;
use crate::results::Summary;
use crate::style::Color;

verus! {

/// The line shown after a run that failed.
pub const EXPLAIN_HINT: &'static str =
    "\nhelp: for more information about the errors try the explain command: `rslint explain <rules>`";

/// A piece of a line and the colour it is written in.
#[derive(Clone, Debug, PartialEq, Eq)]
pub struct Segment {
    /// The colour of the text, or `None` for the terminal's own.
    pub color: Option<Color>,
    pub text: String,
}

/// What a [`Segment`] holds.
pub struct SegmentView {
    pub color: Option<Color>,
    pub text: Seq<char>,
}

impl View for Segment {
    type V = SegmentView;

    open spec fn view(&self) -> SegmentView {
        SegmentView { color: self.color, text: self.text@ }
    }
}

/// What each of a list of segments holds.
pub open spec fn segment_views(segments: Seq<Segment>) -> Seq<SegmentView> {
    segments.map_values(|segment: Segment| segment@)
}

/// The texts of a list of segments, one after the other.
pub open spec fn spec_joined(segments: Seq<SegmentView>) -> Seq<char>
    decreases segments.len(),
{
    if segments.len() == 0 {
        seq![]
    } else {
        spec_joined(segments.drop_last()) + segments.last().text
    }
}

impl Summary {
    /// The summary line in its coloured pieces: the three counts in red,
    /// yellow and green, between the words that name them.
    pub open spec fn spec_segments(self) -> Seq<SegmentView> {
        seq![
            SegmentView { color: Some(Color::White), text: "\nOutcome: "@ },
            SegmentView { color: Some(Color::Red), text: spec_decimal(self.failures as nat) },
            SegmentView { color: None, text: " fail, "@ },
            SegmentView { color: Some(Color::Yellow), text: spec_decimal(self.warnings as nat) },
            SegmentView { color: None, text: " warn, "@ },
            SegmentView { color: Some(Color::Green), text: spec_decimal(self.successes as nat) },
            SegmentView { color: None, text: " success\n"@ },
        ]
    }

    /// The summary line as plain text.
    pub open spec fn spec_line(self) -> Seq<char> {
        "\nOutcome: "@ + spec_decimal(self.failures as nat) + " fail, "@ + spec_decimal(
            self.warnings as nat,
        ) + " warn, "@ + spec_decimal(self.successes as nat) + " success\n"@
    }

    /// The line that points to the explanations, which follows the summary
    /// of a run that failed and of no other.
    pub open spec fn spec_hint(self) -> Option<Seq<char>> {
        if self.overall == Outcome::Failure {
            Some(EXPLAIN_HINT@)
        } else {
            None
        }
    }

    /// The summary line in its coloured pieces.
    pub fn segments(&self) -> (segments: Vec<Segment>)
        ensures
            segment_views(segments@) == self.spec_segments(),
            spec_joined(segment_views(segments@)) == self.spec_line(),
    {
        let mut segments: Vec<Segment> = Vec::new();
        segments.push(Segment { color: Some(Color::White), text: String::from_str("\nOutcome: ") });
        segments.push(Segment { color: Some(Color::Red), text: decimal(self.failures) });
        segments.push(Segment { color: None, text: String::from_str(" fail, ") });
        segments.push(Segment { color: Some(Color::Yellow), text: decimal(self.warnings) });
        segments.push(Segment { color: None, text: String::from_str(" warn, ") });
        segments.push(Segment { color: Some(Color::Green), text: decimal(self.successes) });
        segments.push(Segment { color: None, text: String::from_str(" success\n") });
        proof {
            assert(segment_views(segments@) =~= self.spec_segments());
            lemma_joined_segments(*self);
        }
        segments
    }

    /// The summary line as plain text.
    pub fn line(&self) -> (line: String)
        ensures
            line@ == self.spec_line(),
    {
        let mut line = String::from_str("\nOutcome: ");
        line.append(decimal(self.failures).as_str());
        line.append(" fail, ");
        line.append(decimal(self.warnings).as_str());
        line.append(" warn, ");
        line.append(decimal(self.successes).as_str());
        line.append(" success\n");
        line
    }

    /// The line that points to the explanations, where the run failed.
    pub fn hint(&self) -> (hint: Option<String>)
        ensures
            match hint {
                Some(text) => self.spec_hint() == Some(text@),
                None => self.spec_hint() is None,
            },
    {
        match self.overall {
            Outcome::Failure => Some(String::from_str(EXPLAIN_HINT)),
            _ => None,
        }
    }
}

/// The pieces of the summary line, put together, are the summary line.
pub proof fn lemma_joined_segments(summary: Summary)
    ensures
        spec_joined(summary.spec_segments()) == summary.spec_line(),
{
    reveal_with_fuel(spec_joined, 8);
}

} // verus!

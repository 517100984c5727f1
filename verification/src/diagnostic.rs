//! Diagnostics as plain data, and the downgrade of their severities to a
//! configured rule level.

use vstd::prelude::*;
use vstd::string::*;

verus! {

/// How serious a diagnostic is.
#[derive(Clone, Copy, Debug, PartialEq, Eq, Structural)]
pub enum Severity {
    /// An unexpected failure inside the engine.
    Bug,
    /// A violation that fails the file.
    Error,
    /// A finding that does not fail the file.
    Warning,
    /// Additional information.
    Note,
    /// A suggestion.
    Help,
}

/// The level a rule is configured to report at.
#[derive(Clone, Copy, Debug, PartialEq, Eq, Structural)]
pub enum RuleLevel {
    /// Findings of the rule are reported as warnings at most.
    Warning,
    /// Findings of the rule keep the severity the engine gave them.
    Error,
    /// The rule does not run.
    Off,
}

/// A span of source text that a diagnostic points at.
#[derive(Clone, Debug, PartialEq, Eq)]
pub struct Label {
    /// True for the span the diagnostic is about, false for context.
    pub primary: bool,
    /// The file the span lies in.
    pub file_id: usize,
    /// First byte of the span.
    pub start: usize,
    /// One past the last byte of the span.
    pub end: usize,
    /// Text shown beside the span.
    pub message: String,
}

/// A single finding.
#[derive(Clone, Debug, PartialEq, Eq)]
pub struct Diagnostic {
    pub severity: Severity,
    /// The name of the rule that produced the finding, if a rule did.
    pub code: Option<String>,
    /// The file the finding belongs to.
    pub file_id: usize,
    pub message: String,
    pub labels: Vec<Label>,
    pub notes: Vec<String>,
}

/// What a [`Label`] holds.
pub struct LabelView {
    pub primary: bool,
    pub file_id: usize,
    pub start: usize,
    pub end: usize,
    pub message: Seq<char>,
}

/// What a [`Diagnostic`] holds.
pub struct DiagnosticView {
    pub severity: Severity,
    pub code: Option<Seq<char>>,
    pub file_id: usize,
    pub message: Seq<char>,
    pub labels: Seq<LabelView>,
    pub notes: Seq<Seq<char>>,
}

impl View for Label {
    type V = LabelView;

    open spec fn view(&self) -> LabelView {
        LabelView {
            primary: self.primary,
            file_id: self.file_id,
            start: self.start,
            end: self.end,
            message: self.message@,
        }
    }
}

impl View for Diagnostic {
    type V = DiagnosticView;

    open spec fn view(&self) -> DiagnosticView {
        DiagnosticView {
            severity: self.severity,
            code: match self.code {
                Some(code) => Some(code@),
                None => None,
            },
            file_id: self.file_id,
            message: self.message@,
            labels: self.labels@.map_values(|label: Label| label@),
            notes: self.notes@.map_values(|note: String| note@),
        }
    }
}

impl DiagnosticView {
    /// An error without labels or notes.
    pub open spec fn error(file_id: usize, code: Seq<char>, message: Seq<char>) -> DiagnosticView {
        DiagnosticView {
            severity: Severity::Error,
            code: Some(code),
            file_id,
            message,
            labels: seq![],
            notes: seq![],
        }
    }

    /// The same diagnostic with one more note at its end.
    pub open spec fn note(self, note: Seq<char>) -> DiagnosticView {
        DiagnosticView { notes: self.notes.push(note), ..self }
    }
}

impl Severity {
    /// True for the severities that fail a file.
    pub open spec fn fails(self) -> bool {
        self == Severity::Error || self == Severity::Bug
    }

    /// The severity a diagnostic has after its rule's level was applied:
    /// failing severities drop to `Warning` under level `Warning`, and
    /// nothing else changes.
    pub open spec fn spec_remapped(self, level: RuleLevel) -> Severity {
        if level == RuleLevel::Warning && self.fails() {
            Severity::Warning
        } else {
            self
        }
    }

    /// The severity a diagnostic has after its rule's level was applied.
    pub fn remapped(self, level: RuleLevel) -> (r: Severity)
        ensures
            r == self.spec_remapped(level),
    {
        match (self, level) {
            (Severity::Error, RuleLevel::Warning) => Severity::Warning,
            (Severity::Bug, RuleLevel::Warning) => Severity::Warning,
            _ => self,
        }
    }
}

impl Diagnostic {
    /// The same diagnostic with another severity.
    pub open spec fn with_severity(self, severity: Severity) -> Diagnostic {
        Diagnostic { severity, ..self }
    }

    /// Makes an error without labels or notes.
    pub fn error(file_id: usize, code: &str, message: String) -> (diagnostic: Diagnostic)
        ensures
            diagnostic@ == DiagnosticView::error(file_id, code@, message@),
    {
        let diagnostic = Diagnostic {
            severity: Severity::Error,
            code: Some(String::from_str(code)),
            file_id,
            message,
            labels: Vec::new(),
            notes: Vec::new(),
        };
        assert(diagnostic@.labels =~= seq![]);
        assert(diagnostic@.notes =~= seq![]);
        diagnostic
    }

    /// Adds a note at the end of the diagnostic.
    pub fn note(self, note: String) -> (diagnostic: Diagnostic)
        ensures
            diagnostic@ == self@.note(note@),
    {
        let mut diagnostic = self;
        diagnostic.notes.push(note);
        assert(diagnostic@.notes =~= self@.notes.push(note@));
        diagnostic
    }
}

/// The diagnostics of one rule after the rule's level was applied to each.
pub open spec fn spec_remap(diagnostics: Seq<Diagnostic>, level: RuleLevel) -> Seq<Diagnostic> {
    Seq::new(
        diagnostics.len(),
        |i: int| diagnostics[i].with_severity(diagnostics[i].severity.spec_remapped(level)),
    )
}

/// Applies a rule's configured level to the diagnostics the rule produced.
///
/// Errors and bugs become warnings under level `Warning`. Warnings, notes
/// and help are never raised, whatever the level, and the order of the
/// diagnostics stays as it is. A rule that is switched off produces no
/// diagnostics to remap, so `Off` is not a level this function takes.
pub fn remap_diagnostics_to_level(diagnostics: &mut Vec<Diagnostic>, level: RuleLevel)
    requires
        level != RuleLevel::Off,
    ensures
        final(diagnostics)@ == spec_remap(old(diagnostics)@, level),
{
    let mut i: usize = 0;
    while i < diagnostics.len()
        invariant
            i <= diagnostics.len(),
            diagnostics@.len() == old(diagnostics)@.len(),
            forall|j: int|
                0 <= j < i ==> diagnostics@[j] == spec_remap(old(diagnostics)@, level)[j],
            forall|j: int| i <= j < diagnostics@.len() ==> diagnostics@[j] == old(diagnostics)@[j],
        decreases diagnostics.len() - i,
    {
        let severity = diagnostics[i].severity.remapped(level);
        diagnostics[i].severity = severity;
        i += 1;
    }
}

/// Under level `Error` no diagnostic changes.
pub proof fn lemma_remap_error_changes_nothing(diagnostics: Seq<Diagnostic>)
    ensures
        spec_remap(diagnostics, RuleLevel::Error) == diagnostics,
{
}

/// Under level `Warning` every error and every bug becomes a warning,
/// every other diagnostic keeps its severity, and each diagnostic stays at
/// its place with everything but its severity as it was.
pub proof fn lemma_remap_warning_only_lowers(diagnostics: Seq<Diagnostic>)
    ensures
        spec_remap(diagnostics, RuleLevel::Warning).len() == diagnostics.len(),
        forall|i: int|
            0 <= i < diagnostics.len() ==> {
                let before = #[trigger] diagnostics[i];
                let after = spec_remap(diagnostics, RuleLevel::Warning)[i];
                &&& after == before.with_severity(after.severity)
                &&& after@ == DiagnosticView { severity: after.severity, ..before@ }
                &&& before.severity.fails() ==> after.severity == Severity::Warning
                &&& !before.severity.fails() ==> after.severity == before.severity
            },
{
}

} // verus!

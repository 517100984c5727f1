//! The decisions of a lint run.
//!
//! A run loads its configuration and finds its files, lints every file,
//! and reports. Loading, linting and writing are done by the caller; what
//! is to be done next, and what is to be reported, is decided here. The
//! caller hands each result in as an [`Event`] and carries out the
//! [`Action`] it gets back.

use vstd::prelude::*;
use vstd::string::*;

use crate::diagnostic::{Diagnostic, DiagnosticView};
use crate::pattern::{
    capture_fits, captures, check_capture, group_text, spec_captures, Capture,
};
use crate::results::{
    reclassify, result_views, spec_reclassify, spec_summarize, summarize, LintResult,
    LintResultView, RuleConfig, Summary,
};
use crate::text::{
    byte_slice, byte_tail, bytes_of, check_boundary, lemma_slice_all, on_boundary, slice,
};

verus! {

/// Finds where a configuration error tells the line it occurred on.
pub const LOCATION_PATTERN: &'static str = "at line \\d+";

/// Finds the suggestion that a configuration error makes for a name it did
/// not know.
pub const SUGGESTION_PATTERN: &'static str = "\\. did you mean '(.*?)'\\?";

/// The code under which problems with the configuration are reported.
pub const CONFIG_CODE: &'static str = "config";

/// The message reported when no file is found to lint.
pub const NO_FILES_MESSAGE: &'static str = "No matching files found";

/// The argument that asks for linting standard input.
pub const STDIN_ARGUMENT: &'static str = "-";

/// A message up to the first of the places found in it, or all of it
/// where none was found or the first does not lie between characters.
pub open spec fn spec_before_first(message: Seq<char>, located: Seq<Capture>) -> Seq<char> {
    if located.len() > 0 && on_boundary(message, located[0].start as int) {
        slice(message, 0, located[0].start as int)
    } else {
        message
    }
}

/// The first of the suggestions found in a text, if one was found and it
/// lies in the text with its first group.
pub open spec fn spec_first_hint(text: Seq<char>, hints: Seq<Capture>) -> Option<Capture> {
    if hints.len() > 0 && capture_fits(text, 0, hints[0]) {
        Some(hints[0])
    } else {
        None
    }
}

/// The diagnostic for a configuration that could not be parsed, where
/// `located` are the places at which the parser's message tells the line
/// and `hints` the suggestions in what stands before the first of them:
/// the message up to that place, with the first suggestion, if any, taken
/// out and given as a note.
pub open spec fn spec_config_error_from(
    message: Seq<char>,
    located: Seq<Capture>,
    hints: Seq<Capture>,
) -> DiagnosticView {
    let kept = spec_before_first(message, located);
    match spec_first_hint(kept, hints) {
        Some(hint) => DiagnosticView::error(
            0,
            CONFIG_CODE@,
            slice(kept, 0, hint.start as int) + slice(
                kept,
                hint.end as int,
                bytes_of(kept).len() as int,
            ),
        ).note("help: did you mean '"@ + group_text(kept, hint) + "'?"@),
        None => DiagnosticView::error(0, CONFIG_CODE@, kept),
    }
}

/// The message of a configuration error up to where it tells the line, or
/// all of it where it tells none.
pub open spec fn spec_without_location(message: Seq<char>) -> Seq<char> {
    spec_before_first(message, spec_captures(LOCATION_PATTERN@, message))
}

/// The diagnostic for a configuration that could not be parsed: the
/// parser's message without the line it tells, and with the suggestion it
/// makes, if any, moved into a note.
pub open spec fn spec_config_error(message: Seq<char>) -> DiagnosticView {
    spec_config_error_from(
        message,
        spec_captures(LOCATION_PATTERN@, message),
        spec_captures(SUGGESTION_PATTERN@, spec_without_location(message)),
    )
}

/// Cuts a message off at the first of the places found in it.
pub fn before_first<'a>(message: &'a str, located: &Vec<Capture>) -> (kept: &'a str)
    ensures
        kept@ == spec_before_first(message@, located@),
{
    proof {
        lemma_slice_all(message@);
    }
    if located.len() > 0 && check_boundary(message, located[0].start) {
        byte_slice(message, 0, located[0].start)
    } else {
        message
    }
}

/// Makes the diagnostic for a configuration that could not be parsed from
/// the parser's message, the places at which the message tells the line,
/// and the suggestions in what stands before the first of those places.
///
/// The message is cut at the first place. The first suggestion in what is
/// left is taken out of the message and given as a note of its own.
/// Without a place the message is kept whole, and without a suggestion
/// there is no note.
pub fn config_error_from(
    message: &str,
    located: &Vec<Capture>,
    hints: &Vec<Capture>,
) -> (diagnostic: Diagnostic)
    ensures
        diagnostic@ == spec_config_error_from(message@, located@, hints@),
{
    let kept = before_first(message, located);
    if hints.len() > 0 && check_capture(kept, 0, hints[0]) {
        let hint = hints[0];
        proof {
            lemma_slice_all(kept@);
        }
        let mut text = String::from_str(byte_slice(kept, 0, hint.start));
        text.append(byte_tail(kept, hint.end));
        let mut note = String::from_str("help: did you mean '");
        match hint.group {
            Some(group) => {
                note.append(byte_slice(kept, group.0, group.1));
            },
            None => {},
        }
        note.append("'?");
        Diagnostic::error(0, CONFIG_CODE, text).note(note)
    } else {
        Diagnostic::error(0, CONFIG_CODE, String::from_str(kept))
    }
}

/// Makes the diagnostic for a configuration that could not be parsed.
///
/// The parser's message is cut where it tells the line. A suggestion in
/// what is left, ". did you mean '...'?", is taken out of the message
/// and given as a note of its own. A message without these is reported
/// as it is.
pub fn config_error_diagnostic(message: &str) -> (diagnostic: Diagnostic)
    ensures
        diagnostic@ == spec_config_error(message@),
{
    let located = captures(LOCATION_PATTERN, message);
    let hints = captures(SUGGESTION_PATTERN, before_first(message, &located));
    config_error_from(message, &located, &hints)
}

/// How loading the configuration ended.
#[derive(Clone, Debug, PartialEq, Eq)]
pub enum ConfigLoad {
    /// There is no configuration, or it selects no rules: the built-in
    /// rules run at their own levels.
    Absent,
    /// The configuration selects rules and gives them levels.
    Rules(RuleConfig),
    /// The configuration could not be parsed; the parser's message.
    Malformed(String),
    /// The configuration could not be loaded for another reason.
    Failed(String),
}

/// What the engine made of one file.
#[derive(Clone, Debug, PartialEq, Eq)]
pub enum FileOutcome {
    /// The file was linted.
    Linted(LintResult),
    /// The engine gave up on the file, with the diagnostic that says why.
    /// The caller shows it as soon as it arises.
    Fatal(Diagnostic),
}

/// What is shown at the end of a run.
#[derive(Clone, Debug, PartialEq, Eq)]
pub struct RunReport {
    /// The diagnostics of the files the engine gave up on, which were
    /// shown as they arose. Their files are not counted.
    pub fatal: Vec<Diagnostic>,
    /// The diagnostics of the linted files, file after file, each file's in
    /// the order the engine gave them.
    pub diagnostics: Vec<Diagnostic>,
    /// The counts and the overall outcome.
    pub summary: Summary,
}

/// What a [`ConfigLoad`] holds.
pub enum ConfigLoadView {
    Absent,
    Rules(RuleConfig),
    Malformed(Seq<char>),
    Failed(Seq<char>),
}

/// What a [`FileOutcome`] holds.
pub enum FileOutcomeView {
    Linted(LintResultView),
    Fatal(Diagnostic),
}

/// What a [`RunReport`] holds.
pub struct RunReportView {
    pub fatal: Seq<Diagnostic>,
    pub diagnostics: Seq<Diagnostic>,
    pub summary: Summary,
}

impl View for ConfigLoad {
    type V = ConfigLoadView;

    open spec fn view(&self) -> ConfigLoadView {
        match *self {
            ConfigLoad::Absent => ConfigLoadView::Absent,
            ConfigLoad::Rules(config) => ConfigLoadView::Rules(config),
            ConfigLoad::Malformed(message) => ConfigLoadView::Malformed(message@),
            ConfigLoad::Failed(message) => ConfigLoadView::Failed(message@),
        }
    }
}

impl View for FileOutcome {
    type V = FileOutcomeView;

    open spec fn view(&self) -> FileOutcomeView {
        match *self {
            FileOutcome::Linted(result) => FileOutcomeView::Linted(result@),
            FileOutcome::Fatal(diagnostic) => FileOutcomeView::Fatal(diagnostic),
        }
    }
}

impl View for RunReport {
    type V = RunReportView;

    open spec fn view(&self) -> RunReportView {
        RunReportView {
            fatal: self.fatal@,
            diagnostics: self.diagnostics@,
            summary: self.summary,
        }
    }
}

/// What each of a list of file outcomes holds.
pub open spec fn outcome_views(outcomes: Seq<FileOutcome>) -> Seq<FileOutcomeView> {
    outcomes.map_values(|outcome: FileOutcome| outcome@)
}

/// The diagnostics of the files the engine gave up on, in the order of the
/// files.
pub open spec fn spec_fatal(outcomes: Seq<FileOutcomeView>) -> Seq<Diagnostic>
    decreases outcomes.len(),
{
    if outcomes.len() == 0 {
        seq![]
    } else {
        match outcomes.last() {
            FileOutcomeView::Fatal(diagnostic) => spec_fatal(outcomes.drop_last()).push(diagnostic),
            FileOutcomeView::Linted(_) => spec_fatal(outcomes.drop_last()),
        }
    }
}

/// The results of the files that were linted, in the order of the files.
pub open spec fn spec_linted(outcomes: Seq<FileOutcomeView>) -> Seq<LintResultView>
    decreases outcomes.len(),
{
    if outcomes.len() == 0 {
        seq![]
    } else {
        match outcomes.last() {
            FileOutcomeView::Linted(result) => spec_linted(outcomes.drop_last()).push(result),
            FileOutcomeView::Fatal(_) => spec_linted(outcomes.drop_last()),
        }
    }
}

/// The diagnostics of a list of results, result after result.
pub open spec fn spec_all_diagnostics(results: Seq<LintResultView>) -> Seq<Diagnostic>
    decreases results.len(),
{
    if results.len() == 0 {
        seq![]
    } else {
        spec_all_diagnostics(results.drop_last()) + results.last().spec_diagnostics()
    }
}

/// What is shown for the given file outcomes under the given
/// configuration: the levels are applied to the linted files, and the
/// files are then counted and their diagnostics put in a row.
pub open spec fn spec_report(
    outcomes: Seq<FileOutcomeView>,
    config: Option<RuleConfig>,
) -> RunReportView {
    let results = spec_reclassify(spec_linted(outcomes), config);
    RunReportView {
        fatal: spec_fatal(outcomes),
        diagnostics: spec_all_diagnostics(results),
        summary: spec_summarize(results),
    }
}

/// Parts the files the engine gave up on from those it linted.
pub fn part_outcomes(outcomes: Vec<FileOutcome>) -> (parts: (Vec<Diagnostic>, Vec<LintResult>))
    ensures
        parts.0@ == spec_fatal(outcome_views(outcomes@)),
        result_views(parts.1@) == spec_linted(outcome_views(outcomes@)),
{
    let ghost views = outcome_views(outcomes@);
    let mut fatal: Vec<Diagnostic> = Vec::new();
    let mut linted: Vec<LintResult> = Vec::new();
    for outcome in it: outcomes
        invariant
            it.seq() == outcomes@,
            views == outcome_views(outcomes@),
            fatal@ == spec_fatal(views.take(it.index() as int)),
            result_views(linted@) == spec_linted(views.take(it.index() as int)),
    {
        proof {
            assert(views.take(it.index() + 1).drop_last() =~= views.take(it.index() as int));
            assert(views.take(it.index() + 1).last() == outcome@);
        }
        match outcome {
            FileOutcome::Linted(result) => {
                let ghost before = result_views(linted@);
                linted.push(result);
                assert(result_views(linted@) =~= before.push(result@));
            },
            FileOutcome::Fatal(diagnostic) => {
                fatal.push(diagnostic);
            },
        }
    }
    assert(views.take(views.len() as int) =~= views);
    (fatal, linted)
}

/// Puts the diagnostics of a list of results in a row, result after
/// result, each result's in the order the engine gave them.
pub fn all_diagnostics(results: Vec<LintResult>) -> (all: Vec<Diagnostic>)
    ensures
        all@ == spec_all_diagnostics(result_views(results@)),
{
    let ghost views = result_views(results@);
    let mut all: Vec<Diagnostic> = Vec::new();
    for result in it: results
        invariant
            it.seq() == results@,
            views == result_views(results@),
            all@ == spec_all_diagnostics(views.take(it.index() as int)),
    {
        proof {
            assert(views.take(it.index() + 1).drop_last() =~= views.take(it.index() as int));
            assert(views.take(it.index() + 1).last() == result@);
        }
        let mut more = result.diagnostics();
        all.append(&mut more);
    }
    assert(views.take(views.len() as int) =~= views);
    all
}

/// Makes the report of a run from what the engine made of each file.
///
/// Files the engine gave up on are set apart and not counted. The
/// configured levels are applied to the others, which are then counted by
/// outcome, merged into the outcome of the run, and have their diagnostics
/// put in a row.
pub fn report(outcomes: Vec<FileOutcome>, config: &Option<RuleConfig>) -> (report: RunReport)
    ensures
        report@ == spec_report(outcome_views(outcomes@), *config),
{
    let (fatal, mut linted) = part_outcomes(outcomes);
    reclassify(&mut linted, config);
    let summary = summarize(&linted);
    let diagnostics = all_diagnostics(linted);
    RunReport { fatal, diagnostics, summary }
}

/// How far a run has come.
#[derive(Clone, Copy, Debug, PartialEq, Eq, Structural)]
pub enum Phase {
    /// Nothing has happened yet.
    Idle,
    /// The configuration is being loaded and the files are being found.
    Preparing,
    /// The files are being linted.
    Linting,
    /// The run is over.
    Finished,
}

/// A lint run: how far it has come, and the levels it applies.
#[derive(Clone, Debug, PartialEq, Eq)]
pub struct LintRun {
    pub phase: Phase,
    /// The levels of the configuration, once it is loaded and has any.
    pub config: Option<RuleConfig>,
}

/// What the caller tells a run.
#[derive(Clone, Debug, PartialEq, Eq)]
pub enum Event {
    /// The run was asked for, with these arguments.
    Started(Vec<String>),
    /// The configuration was loaded, and this many files were found.
    Prepared(ConfigLoad, usize),
    /// The engine was run on every file.
    Linted(Vec<FileOutcome>),
}

/// What a run asks of the caller.
#[derive(Clone, Debug, PartialEq, Eq)]
pub enum Action {
    /// Load the configuration and find the files, side by side.
    Prepare,
    /// Stop: linting standard input was asked for, which cannot be done.
    RefuseStdin,
    /// Show the diagnostic and stop.
    Report(Diagnostic),
    /// Run the engine on every file, independently of the others: with the
    /// rules of the configuration where `configured` is set and with the
    /// built-in rules otherwise, and with more detail in its diagnostics
    /// where `verbose` is set, which it never is.
    Lint { configured: bool, verbose: bool },
    /// Show the report and stop.
    Publish(RunReport),
    /// The event came out of turn: do nothing.
    Ignore,
}

/// What an [`Event`] holds.
pub enum EventView {
    Started(Seq<Seq<char>>),
    Prepared(ConfigLoadView, usize),
    Linted(Seq<FileOutcomeView>),
}

/// What an [`Action`] holds.
pub enum ActionView {
    Prepare,
    RefuseStdin,
    Report(DiagnosticView),
    Lint { configured: bool, verbose: bool },
    Publish(RunReportView),
    Ignore,
}

impl View for Event {
    type V = EventView;

    open spec fn view(&self) -> EventView {
        match *self {
            Event::Started(arguments) => EventView::Started(
                arguments@.map_values(|argument: String| argument@),
            ),
            Event::Prepared(load, files) => EventView::Prepared(load@, files),
            Event::Linted(outcomes) => EventView::Linted(outcome_views(outcomes@)),
        }
    }
}

impl View for Action {
    type V = ActionView;

    open spec fn view(&self) -> ActionView {
        match *self {
            Action::Prepare => ActionView::Prepare,
            Action::RefuseStdin => ActionView::RefuseStdin,
            Action::Report(diagnostic) => ActionView::Report(diagnostic@),
            Action::Lint { configured, verbose } => ActionView::Lint { configured, verbose },
            Action::Publish(report) => ActionView::Publish(report@),
            Action::Ignore => ActionView::Ignore,
        }
    }
}

/// True when the arguments ask for linting standard input: there are
/// none, or the first is a dash.
pub open spec fn spec_asks_for_stdin(arguments: Seq<Seq<char>>) -> bool {
    arguments.len() == 0 || arguments[0] == STDIN_ARGUMENT@
}

/// What a run does once the configuration is loaded and the files are
/// counted. A configuration that failed to load is reported. Failing
/// that, a run without files is reported. Otherwise the files are linted.
pub open spec fn spec_prepared(load: ConfigLoadView, files: usize) -> (LintRun, ActionView) {
    let over = LintRun { phase: Phase::Finished, config: None };
    match load {
        ConfigLoadView::Malformed(message) => (
            over,
            ActionView::Report(spec_config_error(message)),
        ),
        ConfigLoadView::Failed(message) => (
            over,
            ActionView::Report(DiagnosticView::error(0, CONFIG_CODE@, message)),
        ),
        ConfigLoadView::Absent => if files == 0 {
            (over, ActionView::Report(DiagnosticView::error(0, ""@, NO_FILES_MESSAGE@)))
        } else {
            (
                LintRun { phase: Phase::Linting, config: None },
                ActionView::Lint { configured: false, verbose: false },
            )
        },
        ConfigLoadView::Rules(config) => if files == 0 {
            (over, ActionView::Report(DiagnosticView::error(0, ""@, NO_FILES_MESSAGE@)))
        } else {
            (
                LintRun { phase: Phase::Linting, config: Some(config) },
                ActionView::Lint { configured: true, verbose: false },
            )
        },
    }
}

/// The state a run goes to on an event, and what it asks of the caller.
pub open spec fn spec_step(run: LintRun, event: EventView) -> (LintRun, ActionView) {
    match (run.phase, event) {
        (Phase::Idle, EventView::Started(arguments)) => if spec_asks_for_stdin(arguments) {
            (LintRun { phase: Phase::Finished, config: None }, ActionView::RefuseStdin)
        } else {
            (LintRun { phase: Phase::Preparing, config: None }, ActionView::Prepare)
        },
        (Phase::Preparing, EventView::Prepared(load, files)) => spec_prepared(load, files),
        (Phase::Linting, EventView::Linted(outcomes)) => (
            LintRun { phase: Phase::Finished, config: None },
            ActionView::Publish(spec_report(outcomes, run.config)),
        ),
        _ => (run, ActionView::Ignore),
    }
}

/// True when the arguments ask for linting standard input.
pub fn asks_for_stdin(arguments: &Vec<String>) -> (asks: bool)
    ensures
        asks == spec_asks_for_stdin(arguments@.map_values(|argument: String| argument@)),
{
    if arguments.len() == 0 {
        return true;
    }
    let dash = String::from_str(STDIN_ARGUMENT);
    arguments[0] == dash
}

impl LintRun {
    /// A run that has not begun.
    pub fn new() -> (run: LintRun)
        ensures
            run.phase == Phase::Idle,
            run.config is None,
    {
        LintRun { phase: Phase::Idle, config: None }
    }

    /// Takes in what happened and says what is to be done next.
    ///
    /// A run begins with `Started`, which is answered by `Prepare`, or by
    /// `RefuseStdin` where the arguments ask for standard input. `Prepared`
    /// is answered by `Lint`, or by the `Report` of a configuration that
    /// did not load or of a run without files; in that case no file is
    /// linted. `Linted` is answered by `Publish`. An event out of turn
    /// changes nothing.
    pub fn step(&mut self, event: Event) -> (action: Action)
        ensures
            (*final(self), action@) == spec_step(*old(self), event@),
    {
        match (self.phase, event) {
            (Phase::Idle, Event::Started(arguments)) => {
                self.config = None;
                if asks_for_stdin(&arguments) {
                    self.phase = Phase::Finished;
                    Action::RefuseStdin
                } else {
                    self.phase = Phase::Preparing;
                    Action::Prepare
                }
            },
            (Phase::Preparing, Event::Prepared(load, files)) => {
                self.config = None;
                self.phase = Phase::Finished;
                match load {
                    ConfigLoad::Malformed(message) => Action::Report(
                        config_error_diagnostic(message.as_str()),
                    ),
                    ConfigLoad::Failed(message) => Action::Report(
                        Diagnostic::error(0, CONFIG_CODE, message),
                    ),
                    ConfigLoad::Absent => {
                        if files == 0 {
                            Action::Report(
                                Diagnostic::error(0, "", String::from_str(NO_FILES_MESSAGE)),
                            )
                        } else {
                            self.phase = Phase::Linting;
                            Action::Lint { configured: false, verbose: false }
                        }
                    },
                    ConfigLoad::Rules(config) => {
                        if files == 0 {
                            Action::Report(
                                Diagnostic::error(0, "", String::from_str(NO_FILES_MESSAGE)),
                            )
                        } else {
                            self.phase = Phase::Linting;
                            self.config = Some(config);
                            Action::Lint { configured: true, verbose: false }
                        }
                    },
                }
            },
            (Phase::Linting, Event::Linted(outcomes)) => {
                let report = report(outcomes, &self.config);
                self.phase = Phase::Finished;
                self.config = None;
                Action::Publish(report)
            },
            _ => Action::Ignore,
        }
    }
}

} // verus!

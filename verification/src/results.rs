//! The results of linting files: their outcomes, their diagnostics, and
//! the levels that a configuration gives to rules.

use vstd::prelude::*;
use vstd::seq_lib::to_multiset_build;
use vstd::string::*;

use crate::diagnostic::{remap_diagnostics_to_level, spec_remap, Diagnostic, RuleLevel, Severity};
use crate::outcome::{lemma_merge_any_order, Outcome};

verus! {

/// The diagnostics that one rule produced for one file, in the order the
/// rule produced them.
#[derive(Clone, Debug, PartialEq, Eq)]
pub struct RuleDiagnostics {
    pub rule_name: String,
    pub diagnostics: Vec<Diagnostic>,
}

/// Everything the engine reported for one file.
#[derive(Clone, Debug, PartialEq, Eq)]
pub struct LintResult {
    pub file_id: usize,
    /// Findings of the parser.
    pub parser_diagnostics: Vec<Diagnostic>,
    /// Findings of the rules, one entry for each rule that ran.
    pub rule_diagnostics: Vec<RuleDiagnostics>,
    /// Findings about the directives written in the file.
    pub directive_diagnostics: Vec<Diagnostic>,
}

/// What a [`RuleDiagnostics`] holds.
pub struct RuleDiagnosticsView {
    pub rule_name: Seq<char>,
    pub diagnostics: Seq<Diagnostic>,
}

/// What a [`LintResult`] holds.
pub struct LintResultView {
    pub file_id: usize,
    pub parser_diagnostics: Seq<Diagnostic>,
    pub rule_diagnostics: Seq<RuleDiagnosticsView>,
    pub directive_diagnostics: Seq<Diagnostic>,
}

impl View for RuleDiagnostics {
    type V = RuleDiagnosticsView;

    open spec fn view(&self) -> RuleDiagnosticsView {
        RuleDiagnosticsView { rule_name: self.rule_name@, diagnostics: self.diagnostics@ }
    }
}

/// What each of a list of rule entries holds.
pub open spec fn group_views(groups: Seq<RuleDiagnostics>) -> Seq<RuleDiagnosticsView> {
    groups.map_values(|group: RuleDiagnostics| group@)
}

impl View for LintResult {
    type V = LintResultView;

    open spec fn view(&self) -> LintResultView {
        LintResultView {
            file_id: self.file_id,
            parser_diagnostics: self.parser_diagnostics@,
            rule_diagnostics: group_views(self.rule_diagnostics@),
            directive_diagnostics: self.directive_diagnostics@,
        }
    }
}

/// What each of a list of results holds.
pub open spec fn result_views(results: Seq<LintResult>) -> Seq<LintResultView> {
    results.map_values(|result: LintResult| result@)
}

/// The level configured for one rule.
#[derive(Clone, Debug, PartialEq, Eq)]
pub struct RuleSetting {
    pub name: String,
    pub level: RuleLevel,
}

/// The levels a configuration gives to rules. Where a rule is listed more
/// than once, its first entry counts.
#[derive(Clone, Debug, PartialEq, Eq)]
pub struct RuleConfig {
    pub settings: Vec<RuleSetting>,
}

/// The level that the first setting for `name` gives, if there is one.
pub open spec fn spec_level(settings: Seq<RuleSetting>, name: Seq<char>) -> Option<RuleLevel>
    decreases settings.len(),
{
    if settings.len() == 0 {
        None
    } else if settings[0].name@ == name {
        Some(settings[0].level)
    } else {
        spec_level(settings.drop_first(), name)
    }
}

impl RuleConfig {
    /// The level configured for a rule, if the configuration names the rule.
    pub open spec fn spec_rule_level_by_name(self, name: Seq<char>) -> Option<RuleLevel> {
        spec_level(self.settings@, name)
    }

    /// The level configured for a rule, if the configuration names the rule.
    pub fn rule_level_by_name(&self, name: &str) -> (level: Option<RuleLevel>)
        ensures
            level == self.spec_rule_level_by_name(name@),
    {
        let wanted = String::from_str(name);
        let mut i: usize = 0;
        assert(self.settings@.skip(0) =~= self.settings@);
        while i < self.settings.len()
            invariant
                i <= self.settings.len(),
                wanted@ == name@,
                spec_level(self.settings@, name@) == spec_level(
                    self.settings@.skip(i as int),
                    name@,
                ),
            decreases self.settings.len() - i,
        {
            if self.settings[i].name == wanted {
                return Some(self.settings[i].level);
            }
            assert(self.settings@.skip(i as int).drop_first() =~= self.settings@.skip(i + 1));
            i += 1;
        }
        None
    }
}

/// The diagnostics of a list of rules, rule after rule.
pub open spec fn spec_flatten(groups: Seq<RuleDiagnosticsView>) -> Seq<Diagnostic>
    decreases groups.len(),
{
    if groups.len() == 0 {
        seq![]
    } else {
        spec_flatten(groups.drop_last()) + groups.last().diagnostics
    }
}

/// The outcome that a sequence of diagnostics stands for: `Failure` where
/// one of them is an error or a bug, else `Warning` where one of them is a
/// warning, else `Success`.
pub open spec fn spec_outcome_of(diagnostics: Seq<Diagnostic>) -> Outcome {
    if exists|i: int| 0 <= i < diagnostics.len() && (#[trigger] diagnostics[i]).severity.fails() {
        Outcome::Failure
    } else if exists|i: int|
        0 <= i < diagnostics.len() && (#[trigger] diagnostics[i]).severity == Severity::Warning {
        Outcome::Warning
    } else {
        Outcome::Success
    }
}

/// The outcome of two sequences of diagnostics put together is the greater
/// of their outcomes.
pub proof fn lemma_outcome_of_concat(a: Seq<Diagnostic>, b: Seq<Diagnostic>)
    ensures
        spec_outcome_of(a + b) == spec_outcome_of(a).spec_join(spec_outcome_of(b)),
{
    let ab = a + b;
    if exists|i: int| 0 <= i < a.len() && (#[trigger] a[i]).severity.fails() {
        let i = choose|i: int| 0 <= i < a.len() && (#[trigger] a[i]).severity.fails();
        assert(ab[i].severity.fails());
    } else if exists|i: int| 0 <= i < b.len() && (#[trigger] b[i]).severity.fails() {
        let i = choose|i: int| 0 <= i < b.len() && (#[trigger] b[i]).severity.fails();
        assert(ab[a.len() + i].severity.fails());
    } else {
        assert forall|i: int| 0 <= i < ab.len() implies !(#[trigger] ab[i]).severity.fails() by {
            if i < a.len() {
                assert(ab[i] == a[i]);
            } else {
                assert(ab[i] == b[i - a.len()]);
            }
        }
        if exists|i: int| 0 <= i < a.len() && (#[trigger] a[i]).severity == Severity::Warning {
            let i = choose|i: int|
                0 <= i < a.len() && (#[trigger] a[i]).severity == Severity::Warning;
            assert(ab[i].severity == Severity::Warning);
        } else if exists|i: int|
            0 <= i < b.len() && (#[trigger] b[i]).severity == Severity::Warning {
            let i = choose|i: int|
                0 <= i < b.len() && (#[trigger] b[i]).severity == Severity::Warning;
            assert(ab[a.len() + i].severity == Severity::Warning);
        } else {
            assert forall|i: int| 0 <= i < ab.len() implies (#[trigger] ab[i]).severity
                != Severity::Warning by {
                if i < a.len() {
                    assert(ab[i] == a[i]);
                } else {
                    assert(ab[i] == b[i - a.len()]);
                }
            }
        }
    }
}

/// The outcome that the diagnostics in a vector stand for.
pub fn outcome_of(diagnostics: &Vec<Diagnostic>) -> (outcome: Outcome)
    ensures
        outcome == spec_outcome_of(diagnostics@),
{
    let mut outcome = Outcome::Success;
    let mut i: usize = 0;
    while i < diagnostics.len()
        invariant
            i <= diagnostics.len(),
            outcome == spec_outcome_of(diagnostics@.take(i as int)),
        decreases diagnostics.len() - i,
    {
        let one = match diagnostics[i].severity {
            Severity::Error => Outcome::Failure,
            Severity::Bug => Outcome::Failure,
            Severity::Warning => Outcome::Warning,
            _ => Outcome::Success,
        };
        proof {
            let head = diagnostics@.take(i as int);
            let last = seq![diagnostics@[i as int]];
            assert(diagnostics@.take(i + 1) =~= head + last);
            lemma_outcome_of_concat(head, last);
            assert(last[0].severity == diagnostics@[i as int].severity);
            assert(spec_outcome_of(last) == one);
        }
        outcome = outcome.join(one);
        i += 1;
    }
    assert(diagnostics@.take(i as int) =~= diagnostics@);
    outcome
}

/// True when no two of the entries are for the same rule.
pub open spec fn distinct_rules(groups: Seq<RuleDiagnosticsView>) -> bool {
    forall|i: int, j: int|
        0 <= i < j < groups.len() ==> (#[trigger] groups[i]).rule_name != (
        #[trigger] groups[j]).rule_name
}

impl LintResultView {
    /// True when the result holds each rule once, as a result of the
    /// engine does.
    pub open spec fn well_formed(self) -> bool {
        distinct_rules(self.rule_diagnostics)
    }

    /// All diagnostics of the file: those of the parser, then those of each
    /// rule in turn, then those about directives.
    pub open spec fn spec_diagnostics(self) -> Seq<Diagnostic> {
        self.parser_diagnostics + spec_flatten(self.rule_diagnostics) + self.directive_diagnostics
    }

    /// The outcome of the file, which its diagnostics alone decide.
    pub open spec fn spec_outcome(self) -> Outcome {
        spec_outcome_of(self.spec_diagnostics())
    }
}

impl LintResult {
    /// Checks that the result holds each rule once.
    pub fn is_well_formed(&self) -> (ok: bool)
        ensures
            ok == self@.well_formed(),
    {
        let ghost groups = group_views(self.rule_diagnostics@);
        let mut j: usize = 0;
        while j < self.rule_diagnostics.len()
            invariant
                j <= self.rule_diagnostics.len(),
                groups == group_views(self.rule_diagnostics@),
                forall|a: int, b: int|
                    0 <= a < b < j ==> (#[trigger] groups[a]).rule_name != (
                    #[trigger] groups[b]).rule_name,
            decreases self.rule_diagnostics.len() - j,
        {
            let mut i: usize = 0;
            while i < j
                invariant
                    i <= j < self.rule_diagnostics.len(),
                    groups == group_views(self.rule_diagnostics@),
                    forall|a: int|
                        0 <= a < i ==> (#[trigger] groups[a]).rule_name
                            != groups[j as int].rule_name,
                decreases j - i,
            {
                if self.rule_diagnostics[i].rule_name == self.rule_diagnostics[j].rule_name {
                    assert(groups[i as int].rule_name == groups[j as int].rule_name);
                    return false;
                }
                i += 1;
            }
            j += 1;
        }
        true
    }

    /// The outcome of the file: `Failure` where a diagnostic is an error or a
    /// bug, else `Warning` where one is a warning, else `Success`.
    pub fn outcome(&self) -> (outcome: Outcome)
        ensures
            outcome == self@.spec_outcome(),
    {
        let ghost groups = group_views(self.rule_diagnostics@);
        let mut rules = Outcome::Success;
        let mut i: usize = 0;
        while i < self.rule_diagnostics.len()
            invariant
                i <= self.rule_diagnostics.len(),
                groups == group_views(self.rule_diagnostics@),
                rules == spec_outcome_of(spec_flatten(groups.take(i as int))),
            decreases self.rule_diagnostics.len() - i,
        {
            let one = outcome_of(&self.rule_diagnostics[i].diagnostics);
            proof {
                assert(groups.take(i + 1).drop_last() =~= groups.take(i as int));
                lemma_outcome_of_concat(
                    spec_flatten(groups.take(i as int)),
                    groups[i as int].diagnostics,
                );
            }
            rules = rules.join(one);
            i += 1;
        }
        proof {
            assert(groups.take(i as int) =~= groups);
            lemma_outcome_of_concat(self.parser_diagnostics@, spec_flatten(groups));
            lemma_outcome_of_concat(
                self.parser_diagnostics@ + spec_flatten(groups),
                self.directive_diagnostics@,
            );
        }
        let parser = outcome_of(&self.parser_diagnostics);
        let directives = outcome_of(&self.directive_diagnostics);
        parser.join(rules).join(directives)
    }

    /// All diagnostics of the file, in the order in which they are shown:
    /// those of the parser, then those of each rule in turn, then those
    /// about directives.
    pub fn diagnostics(self) -> (all: Vec<Diagnostic>)
        ensures
            all@ == self@.spec_diagnostics(),
    {
        let mut result = self;
        let mut all: Vec<Diagnostic> = Vec::new();
        all.append(&mut result.parser_diagnostics);
        let ghost groups = group_views(self.rule_diagnostics@);
        let mut i: usize = 0;
        while i < result.rule_diagnostics.len()
            invariant
                i <= result.rule_diagnostics.len(),
                groups == group_views(self.rule_diagnostics@),
                result.directive_diagnostics == self.directive_diagnostics,
                result.rule_diagnostics@.len() == groups.len(),
                forall|j: int|
                    i <= j < groups.len() ==> (#[trigger] result.rule_diagnostics@[j])@
                        == groups[j],
                all@ == self.parser_diagnostics@ + spec_flatten(groups.take(i as int)),
            decreases result.rule_diagnostics.len() - i,
        {
            assert(groups.take(i + 1).drop_last() =~= groups.take(i as int));
            all.append(&mut result.rule_diagnostics[i].diagnostics);
            i += 1;
        }
        assert(groups.take(i as int) =~= groups);
        all.append(&mut result.directive_diagnostics);
        assert(all@ =~= self@.spec_diagnostics());
        all
    }
}

impl RuleDiagnosticsView {
    /// The entry after the configured level of its rule was applied. An
    /// entry whose rule the configuration does not name, or switches off,
    /// stays as it is.
    pub open spec fn spec_reclassified(self, config: RuleConfig) -> RuleDiagnosticsView {
        match config.spec_rule_level_by_name(self.rule_name) {
            Some(level) => if level == RuleLevel::Off {
                self
            } else {
                RuleDiagnosticsView { diagnostics: spec_remap(self.diagnostics, level), ..self }
            },
            None => self,
        }
    }
}

impl LintResultView {
    /// The result after the configured levels were applied to the
    /// diagnostics of each rule. What the parser and the directives
    /// reported stays as it is.
    pub open spec fn spec_reclassified(self, config: RuleConfig) -> LintResultView {
        LintResultView {
            rule_diagnostics: self.rule_diagnostics.map_values(
                |group: RuleDiagnosticsView| group.spec_reclassified(config),
            ),
            ..self
        }
    }
}

/// The results after the levels of a configuration were applied to each.
/// Without a configuration nothing changes.
pub open spec fn spec_reclassify(results: Seq<LintResultView>, config: Option<RuleConfig>) -> Seq<
    LintResultView,
> {
    match config {
        Some(config) => results.map_values(
            |result: LintResultView| result.spec_reclassified(config),
        ),
        None => results,
    }
}

impl RuleDiagnostics {
    /// Applies the level that the configuration gives to the rule, if it
    /// gives one, to the diagnostics of the rule.
    pub fn reclassify(&mut self, config: &RuleConfig)
        ensures
            final(self)@ == old(self)@.spec_reclassified(*config),
    {
        match config.rule_level_by_name(self.rule_name.as_str()) {
            Some(RuleLevel::Warning) => {
                remap_diagnostics_to_level(&mut self.diagnostics, RuleLevel::Warning);
            },
            Some(RuleLevel::Error) => {
                remap_diagnostics_to_level(&mut self.diagnostics, RuleLevel::Error);
            },
            _ => {},
        }
    }
}

impl LintResult {
    /// Applies the configured levels to the diagnostics of each rule.
    pub fn reclassify(&mut self, config: &RuleConfig)
        ensures
            final(self)@ == old(self)@.spec_reclassified(*config),
    {
        let ghost before = group_views(self.rule_diagnostics@);
        let mut i: usize = 0;
        while i < self.rule_diagnostics.len()
            invariant
                i <= self.rule_diagnostics.len(),
                before == group_views(old(self).rule_diagnostics@),
                self.rule_diagnostics@.len() == before.len(),
                self.file_id == old(self).file_id,
                self.parser_diagnostics == old(self).parser_diagnostics,
                self.directive_diagnostics == old(self).directive_diagnostics,
                forall|j: int|
                    0 <= j < i ==> (#[trigger] self.rule_diagnostics@[j])@
                        == before[j].spec_reclassified(*config),
                forall|j: int|
                    i <= j < before.len() ==> (#[trigger] self.rule_diagnostics@[j])@ == before[j],
            decreases self.rule_diagnostics.len() - i,
        {
            self.rule_diagnostics[i].reclassify(config);
            i += 1;
        }
        assert(group_views(self.rule_diagnostics@) =~= before.map_values(
            |group: RuleDiagnosticsView| group.spec_reclassified(*config),
        ));
    }
}

/// Applies the levels of a configuration, where there is one, to the
/// diagnostics of every rule in every result. Errors of a rule configured
/// as a warning become warnings; nothing is ever raised.
pub fn reclassify(results: &mut Vec<LintResult>, config: &Option<RuleConfig>)
    ensures
        result_views(final(results)@) == spec_reclassify(result_views(old(results)@), *config),
{
    let ghost before = result_views(results@);
    match config {
        Some(config) => {
            let mut i: usize = 0;
            while i < results.len()
                invariant
                    i <= results.len(),
                    before == result_views(old(results)@),
                    results@.len() == before.len(),
                    forall|j: int|
                        0 <= j < i ==> (#[trigger] results@[j])@ == before[j].spec_reclassified(
                            *config,
                        ),
                    forall|j: int| i <= j < before.len() ==> (#[trigger] results@[j])@ == before[j],
                decreases results.len() - i,
            {
                results[i].reclassify(config);
                i += 1;
            }
            assert(result_views(results@) =~= before.map_values(
                |result: LintResultView| result.spec_reclassified(*config),
            ));
        },
        None => {
            assert(result_views(results@) =~= before);
        },
    }
}

/// How many of the outcomes are the given one.
pub open spec fn spec_count(outcomes: Seq<Outcome>, which: Outcome) -> nat
    decreases outcomes.len(),
{
    if outcomes.len() == 0 {
        0
    } else {
        spec_count(outcomes.drop_last(), which) + if outcomes.last() == which {
            1nat
        } else {
            0nat
        }
    }
}

/// The outcome of each result.
pub open spec fn spec_outcomes(results: Seq<LintResultView>) -> Seq<Outcome> {
    results.map_values(|result: LintResultView| result.spec_outcome())
}

/// The verdict on a whole run.
#[derive(Clone, Copy, Debug, PartialEq, Eq, Structural)]
pub struct Summary {
    /// Files with an error.
    pub failures: usize,
    /// Files with a warning and no error.
    pub warnings: usize,
    /// Files with neither.
    pub successes: usize,
    /// The greatest outcome of any file.
    pub overall: Outcome,
}

/// The verdict that a list of results comes to.
pub open spec fn spec_summarize(results: Seq<LintResultView>) -> Summary {
    let outcomes = spec_outcomes(results);
    Summary {
        failures: spec_count(outcomes, Outcome::Failure) as usize,
        warnings: spec_count(outcomes, Outcome::Warning) as usize,
        successes: spec_count(outcomes, Outcome::Success) as usize,
        overall: Outcome::spec_merge(outcomes),
    }
}

/// Every outcome is counted exactly once.
pub proof fn lemma_counts_add_up(outcomes: Seq<Outcome>)
    ensures
        spec_count(outcomes, Outcome::Failure) + spec_count(outcomes, Outcome::Warning)
            + spec_count(outcomes, Outcome::Success) == outcomes.len(),
    decreases outcomes.len(),
{
    if outcomes.len() > 0 {
        lemma_counts_add_up(outcomes.drop_last());
    }
}

/// A count is the number of times the outcome occurs, wherever it occurs.
pub proof fn lemma_count_is_multiplicity(outcomes: Seq<Outcome>, which: Outcome)
    ensures
        spec_count(outcomes, which) == outcomes.to_multiset().count(which),
    decreases outcomes.len(),
{
    if outcomes.len() == 0 {
        outcomes.to_multiset_ensures();
        assert(outcomes.to_multiset().len() == 0);
    } else {
        let rest = outcomes.drop_last();
        lemma_count_is_multiplicity(rest, which);
        assert(rest.push(outcomes.last()) =~= outcomes);
        to_multiset_build(rest, outcomes.last());
    }
}

/// Counting does not depend on the order of the files: outcomes that
/// differ only in their order give the same counts, and the same overall
/// outcome.
pub proof fn lemma_counts_any_order(a: Seq<Outcome>, b: Seq<Outcome>, which: Outcome)
    requires
        a.to_multiset() == b.to_multiset(),
    ensures
        spec_count(a, which) == spec_count(b, which),
        Outcome::spec_merge(a) == Outcome::spec_merge(b),
{
    lemma_count_is_multiplicity(a, which);
    lemma_count_is_multiplicity(b, which);
    lemma_merge_any_order(a, b);
}

/// Applying levels leaves every entry with its rule, so that a result that
/// holds each rule once still does.
pub proof fn lemma_reclassified_well_formed(result: LintResultView, config: RuleConfig)
    requires
        result.well_formed(),
    ensures
        result.spec_reclassified(config).well_formed(),
{
    let after = result.spec_reclassified(config).rule_diagnostics;
    assert forall|i: int, j: int| 0 <= i < j < after.len() implies (#[trigger] after[i]).rule_name
        != (#[trigger] after[j]).rule_name by {
        assert(after[i].rule_name == result.rule_diagnostics[i].rule_name);
        assert(after[j].rule_name == result.rule_diagnostics[j].rule_name);
    }
}

/// A rule that the configuration switches off is never remapped: what is
/// held for it stays as it is.
pub proof fn lemma_switched_off_untouched(group: RuleDiagnosticsView, config: RuleConfig)
    requires
        config.spec_rule_level_by_name(group.rule_name) == Some(RuleLevel::Off),
    ensures
        group.spec_reclassified(config) == group,
{
}

/// True when a diagnostic is what another becomes under some level: the
/// same but for its severity, which is the same too or was lowered from
/// an error or a bug to a warning.
pub open spec fn lowered_from(after: Diagnostic, before: Diagnostic) -> bool {
    &&& after == before.with_severity(after.severity)
    &&& after.severity == before.severity || (before.severity.fails() && after.severity
        == Severity::Warning)
}

/// True when each of `after` is at the place of, and lowered from, the one
/// of `before`.
pub open spec fn all_lowered_from(after: Seq<Diagnostic>, before: Seq<Diagnostic>) -> bool {
    &&& after.len() == before.len()
    &&& forall|i: int| 0 <= i < before.len() ==> lowered_from(#[trigger] after[i], before[i])
}

/// Applying levels keeps every diagnostic of the rules at its place and
/// never raises a severity.
proof fn lemma_flatten_reclassified(groups: Seq<RuleDiagnosticsView>, config: RuleConfig)
    ensures
        all_lowered_from(
            spec_flatten(
                groups.map_values(|group: RuleDiagnosticsView| group.spec_reclassified(config)),
            ),
            spec_flatten(groups),
        ),
    decreases groups.len(),
{
    let mapped = groups.map_values(|group: RuleDiagnosticsView| group.spec_reclassified(config));
    if groups.len() > 0 {
        lemma_flatten_reclassified(groups.drop_last(), config);
        assert(mapped.drop_last() =~= groups.drop_last().map_values(
            |group: RuleDiagnosticsView| group.spec_reclassified(config),
        ));
        let last = groups.last();
        let last_after = mapped.last();
        assert(last_after == last.spec_reclassified(config));
        let after = spec_flatten(mapped);
        let before = spec_flatten(groups);
        let head = spec_flatten(groups.drop_last());
        let head_after = spec_flatten(mapped.drop_last());
        assert forall|i: int| 0 <= i < before.len() implies lowered_from(
            #[trigger] after[i],
            before[i],
        ) by {
            if i < head.len() {
                assert(after[i] == head_after[i]);
                assert(before[i] == head[i]);
            } else {
                assert(after[i] == last_after.diagnostics[i - head.len()]);
                assert(before[i] == last.diagnostics[i - head.len()]);
            }
        }
    }
}

/// Applying levels keeps the diagnostics of a file in their order: each
/// stays at its place, the same but for its severity, and no severity is
/// raised.
pub proof fn lemma_reclassified_in_place(result: LintResultView, config: RuleConfig)
    ensures
        all_lowered_from(
            result.spec_reclassified(config).spec_diagnostics(),
            result.spec_diagnostics(),
        ),
{
    let after = result.spec_reclassified(config);
    lemma_flatten_reclassified(result.rule_diagnostics, config);
    let before_all = result.spec_diagnostics();
    let after_all = after.spec_diagnostics();
    let rules = spec_flatten(result.rule_diagnostics);
    let rules_after = spec_flatten(after.rule_diagnostics);
    let p = result.parser_diagnostics.len();
    assert forall|i: int| 0 <= i < before_all.len() implies lowered_from(
        #[trigger] after_all[i],
        before_all[i],
    ) by {
        if p <= i < p + rules.len() {
            assert(after_all[i] == rules_after[i - p]);
            assert(before_all[i] == rules[i - p]);
        }
    }
}

/// Applying levels never raises the outcome of a file.
pub proof fn lemma_reclassified_outcome_not_raised(result: LintResultView, config: RuleConfig)
    ensures
        result.spec_reclassified(config).spec_outcome().rank() <= result.spec_outcome().rank(),
{
    lemma_reclassified_in_place(result, config);
    let before_all = result.spec_diagnostics();
    let after_all = result.spec_reclassified(config).spec_diagnostics();
    if result.spec_reclassified(config).spec_outcome() == Outcome::Failure {
        let i = choose|i: int|
            0 <= i < after_all.len() && (#[trigger] after_all[i]).severity.fails();
        assert(lowered_from(after_all[i], before_all[i]));
        assert(before_all[i].severity.fails());
    } else if result.spec_reclassified(config).spec_outcome() == Outcome::Warning {
        let i = choose|i: int|
            0 <= i < after_all.len() && (#[trigger] after_all[i]).severity == Severity::Warning;
        assert(lowered_from(after_all[i], before_all[i]));
    }
}

/// Counts the files under each outcome and merges the outcomes of all
/// files into that of the run.
pub fn summarize(results: &Vec<LintResult>) -> (summary: Summary)
    ensures
        summary == spec_summarize(result_views(results@)),
        summary.failures + summary.warnings + summary.successes == results@.len(),
{
    let ghost views = result_views(results@);
    let ghost all = spec_outcomes(views);
    let mut failures: usize = 0;
    let mut warnings: usize = 0;
    let mut successes: usize = 0;
    let mut outcomes: Vec<Outcome> = Vec::new();
    let mut i: usize = 0;
    while i < results.len()
        invariant
            i <= results.len(),
            views == result_views(results@),
            all == spec_outcomes(views),
            failures == spec_count(all.take(i as int), Outcome::Failure),
            warnings == spec_count(all.take(i as int), Outcome::Warning),
            successes == spec_count(all.take(i as int), Outcome::Success),
            failures + warnings + successes == i,
            outcomes@ == all.take(i as int),
        decreases results.len() - i,
    {
        let outcome = results[i].outcome();
        proof {
            assert(all.take(i + 1).drop_last() =~= all.take(i as int));
            assert(all.take(i + 1).last() == results@[i as int]@.spec_outcome());
        }
        match outcome {
            Outcome::Failure => {
                failures += 1;
            },
            Outcome::Warning => {
                warnings += 1;
            },
            Outcome::Success => {
                successes += 1;
            },
        }
        outcomes.push(outcome);
        assert(outcomes@ =~= all.take(i + 1));
        i += 1;
    }
    assert(all.take(i as int) =~= all);
    Summary { failures, warnings, successes, overall: Outcome::merge(&outcomes) }
}

} // verus!

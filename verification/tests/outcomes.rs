use rslint_runner::diagnostic::{
    remap_diagnostics_to_level, Diagnostic, Label, RuleLevel, Severity,
};
use rslint_runner::outcome::Outcome;
use rslint_runner::results::{
    outcome_of, reclassify, summarize, LintResult, RuleConfig, RuleDiagnostics, RuleSetting,
};

fn diagnostic(severity: Severity, rule: &str, message: &str) -> Diagnostic {
    Diagnostic {
        severity,
        code: Some(rule.to_string()),
        file_id: 1,
        message: message.to_string(),
        labels: vec![Label {
            primary: true,
            file_id: 1,
            start: 3,
            end: 9,
            message: "here".to_string(),
        }],
        notes: vec!["a note".to_string()],
    }
}

fn result(file_id: usize, groups: Vec<(&str, Vec<Diagnostic>)>) -> LintResult {
    LintResult {
        file_id,
        parser_diagnostics: vec![],
        rule_diagnostics: groups
            .into_iter()
            .map(|(name, diagnostics)| RuleDiagnostics { rule_name: name.to_string(), diagnostics })
            .collect(),
        directive_diagnostics: vec![],
    }
}

fn config(levels: Vec<(&str, RuleLevel)>) -> RuleConfig {
    RuleConfig {
        settings: levels
            .into_iter()
            .map(|(name, level)| RuleSetting { name: name.to_string(), level })
            .collect(),
    }
}

#[test]
fn merge_of_nothing_is_success() {
    assert_eq!(Outcome::merge(&vec![]), Outcome::Success);
}

#[test]
fn merge_of_one_success_is_success() {
    assert_eq!(Outcome::merge(&vec![Outcome::Success]), Outcome::Success);
}

#[test]
fn merge_of_warning_and_success_is_warning() {
    assert_eq!(Outcome::merge(&vec![Outcome::Warning, Outcome::Success]), Outcome::Warning);
    assert_eq!(Outcome::merge(&vec![Outcome::Success, Outcome::Warning]), Outcome::Warning);
}

#[test]
fn merge_with_a_failure_is_failure() {
    for other in [Outcome::Failure, Outcome::Warning, Outcome::Success] {
        assert_eq!(Outcome::merge(&vec![Outcome::Failure, other]), Outcome::Failure);
        assert_eq!(Outcome::merge(&vec![other, Outcome::Failure]), Outcome::Failure);
    }
}

#[test]
fn merge_does_not_depend_on_order_or_grouping() {
    let all = [Outcome::Failure, Outcome::Warning, Outcome::Success];
    for a in all {
        for b in all {
            assert_eq!(a.join(b), b.join(a));
            for c in all {
                assert_eq!(a.join(b).join(c), a.join(b.join(c)));
                let whole = Outcome::merge(&vec![a, b, c]);
                assert_eq!(whole, Outcome::merge(&vec![c, a, b]));
                assert_eq!(whole, Outcome::merge(&vec![b, c, a]));
                assert_eq!(whole, Outcome::merge(&vec![a]).join(Outcome::merge(&vec![b, c])));
                assert_eq!(whole, Outcome::merge(&vec![a, b]).join(Outcome::merge(&vec![c])));
            }
        }
    }
}

#[test]
fn join_takes_the_greater() {
    assert_eq!(Outcome::Success.join(Outcome::Success), Outcome::Success);
    assert_eq!(Outcome::Success.join(Outcome::Warning), Outcome::Warning);
    assert_eq!(Outcome::Warning.join(Outcome::Failure), Outcome::Failure);
    assert_eq!(Outcome::Failure.join(Outcome::Success), Outcome::Failure);
}

#[test]
fn remap_to_warning_lowers_errors_and_bugs_only() {
    let before = vec![
        diagnostic(Severity::Error, "no-empty", "first"),
        diagnostic(Severity::Warning, "no-empty", "second"),
        diagnostic(Severity::Bug, "no-empty", "third"),
        diagnostic(Severity::Note, "no-empty", "fourth"),
        diagnostic(Severity::Help, "no-empty", "fifth"),
    ];
    let mut after = before.clone();
    remap_diagnostics_to_level(&mut after, RuleLevel::Warning);
    let severities: Vec<Severity> = after.iter().map(|d| d.severity).collect();
    assert_eq!(
        severities,
        vec![
            Severity::Warning,
            Severity::Warning,
            Severity::Warning,
            Severity::Note,
            Severity::Help
        ]
    );
    assert_eq!(after.len(), before.len());
    for (new, old) in after.iter().zip(before.iter()) {
        assert_eq!(new.message, old.message);
        assert_eq!(new.code, old.code);
        assert_eq!(new.file_id, old.file_id);
        assert_eq!(new.labels, old.labels);
        assert_eq!(new.notes, old.notes);
    }
}

#[test]
fn remap_to_error_changes_nothing() {
    let before = vec![
        diagnostic(Severity::Error, "no-empty", "first"),
        diagnostic(Severity::Warning, "no-empty", "second"),
        diagnostic(Severity::Bug, "no-empty", "third"),
        diagnostic(Severity::Note, "no-empty", "fourth"),
    ];
    let mut after = before.clone();
    remap_diagnostics_to_level(&mut after, RuleLevel::Error);
    assert_eq!(after, before);
}

#[test]
fn remap_of_nothing_is_nothing() {
    let mut none: Vec<Diagnostic> = vec![];
    remap_diagnostics_to_level(&mut none, RuleLevel::Warning);
    assert!(none.is_empty());
}

#[test]
fn remapped_severity_by_level() {
    assert_eq!(Severity::Error.remapped(RuleLevel::Warning), Severity::Warning);
    assert_eq!(Severity::Bug.remapped(RuleLevel::Warning), Severity::Warning);
    assert_eq!(Severity::Warning.remapped(RuleLevel::Error), Severity::Warning);
    assert_eq!(Severity::Note.remapped(RuleLevel::Error), Severity::Note);
    assert_eq!(Severity::Error.remapped(RuleLevel::Error), Severity::Error);
    assert_eq!(Severity::Bug.remapped(RuleLevel::Error), Severity::Bug);
}

#[test]
fn outcome_is_decided_by_the_severities() {
    assert_eq!(outcome_of(&vec![]), Outcome::Success);
    assert_eq!(outcome_of(&vec![diagnostic(Severity::Note, "r", "m")]), Outcome::Success);
    assert_eq!(outcome_of(&vec![diagnostic(Severity::Help, "r", "m")]), Outcome::Success);
    assert_eq!(
        outcome_of(&vec![diagnostic(Severity::Note, "r", "m"), diagnostic(Severity::Warning, "r", "m")]),
        Outcome::Warning
    );
    assert_eq!(
        outcome_of(&vec![diagnostic(Severity::Error, "r", "m"), diagnostic(Severity::Warning, "r", "m")]),
        Outcome::Failure
    );
    assert_eq!(
        outcome_of(&vec![diagnostic(Severity::Warning, "r", "m"), diagnostic(Severity::Bug, "r", "m")]),
        Outcome::Failure
    );
}

#[test]
fn outcome_of_a_file_looks_at_every_source() {
    let clean = result(1, vec![("no-empty", vec![])]);
    assert_eq!(clean.outcome(), Outcome::Success);

    let mut parser = clean.clone();
    parser.parser_diagnostics.push(diagnostic(Severity::Error, "SyntaxError", "bad"));
    assert_eq!(parser.outcome(), Outcome::Failure);

    let mut directive = clean.clone();
    directive.directive_diagnostics.push(diagnostic(Severity::Warning, "directives", "odd"));
    assert_eq!(directive.outcome(), Outcome::Warning);

    let rules = result(
        1,
        vec![
            ("no-empty", vec![diagnostic(Severity::Warning, "no-empty", "w")]),
            ("no-debugger", vec![diagnostic(Severity::Error, "no-debugger", "e")]),
        ],
    );
    assert_eq!(rules.outcome(), Outcome::Failure);
}

#[test]
fn diagnostics_keep_the_order_of_the_engine() {
    let mut file = result(
        4,
        vec![
            (
                "no-empty",
                vec![diagnostic(Severity::Error, "no-empty", "b"), diagnostic(Severity::Note, "no-empty", "c")],
            ),
            ("no-debugger", vec![diagnostic(Severity::Warning, "no-debugger", "d")]),
        ],
    );
    file.parser_diagnostics.push(diagnostic(Severity::Error, "SyntaxError", "a"));
    file.directive_diagnostics.push(diagnostic(Severity::Warning, "directives", "e"));
    let messages: Vec<String> = file.diagnostics().into_iter().map(|d| d.message).collect();
    assert_eq!(messages, vec!["a", "b", "c", "d", "e"]);
}

#[test]
fn level_of_a_rule_is_its_first_setting() {
    let levels = config(vec![
        ("no-empty", RuleLevel::Warning),
        ("no-debugger", RuleLevel::Error),
        ("no-empty", RuleLevel::Error),
        ("no-extra-semi", RuleLevel::Off),
    ]);
    assert_eq!(levels.rule_level_by_name("no-empty"), Some(RuleLevel::Warning));
    assert_eq!(levels.rule_level_by_name("no-debugger"), Some(RuleLevel::Error));
    assert_eq!(levels.rule_level_by_name("no-extra-semi"), Some(RuleLevel::Off));
    assert_eq!(levels.rule_level_by_name("getter-return"), None);
    assert_eq!(config(vec![]).rule_level_by_name("no-empty"), None);
}

#[test]
fn reclassify_applies_each_rules_own_level() {
    let mut results = vec![
        result(
            1,
            vec![
                ("no-empty", vec![diagnostic(Severity::Error, "no-empty", "a")]),
                ("no-debugger", vec![diagnostic(Severity::Error, "no-debugger", "b")]),
                ("getter-return", vec![diagnostic(Severity::Bug, "getter-return", "c")]),
            ],
        ),
        result(2, vec![("no-empty", vec![diagnostic(Severity::Bug, "no-empty", "d")])]),
    ];
    results[0].parser_diagnostics.push(diagnostic(Severity::Error, "no-empty", "parser"));
    let levels = Some(config(vec![
        ("no-empty", RuleLevel::Warning),
        ("no-debugger", RuleLevel::Error),
    ]));
    reclassify(&mut results, &levels);
    assert_eq!(results[0].rule_diagnostics[0].diagnostics[0].severity, Severity::Warning);
    assert_eq!(results[0].rule_diagnostics[1].diagnostics[0].severity, Severity::Error);
    assert_eq!(results[0].rule_diagnostics[2].diagnostics[0].severity, Severity::Bug);
    assert_eq!(results[0].parser_diagnostics[0].severity, Severity::Error);
    assert_eq!(results[1].rule_diagnostics[0].diagnostics[0].severity, Severity::Warning);
    assert_eq!(results[1].rule_diagnostics[0].diagnostics[0].message, "d");
}

#[test]
fn reclassify_without_configuration_changes_nothing() {
    let before = vec![result(
        1,
        vec![("no-empty", vec![diagnostic(Severity::Error, "no-empty", "a")])],
    )];
    let mut after = before.clone();
    reclassify(&mut after, &None);
    assert_eq!(after, before);
}

#[test]
fn reclassify_never_remaps_under_a_rule_switched_off() {
    let before = vec![result(
        1,
        vec![
            ("no-empty", vec![diagnostic(Severity::Error, "no-empty", "a")]),
            ("no-debugger", vec![]),
        ],
    )];
    let mut after = before.clone();
    reclassify(
        &mut after,
        &Some(config(vec![("no-empty", RuleLevel::Off), ("no-debugger", RuleLevel::Off)])),
    );
    assert_eq!(after, before);
}

#[test]
fn summarize_counts_each_file_once() {
    let results = vec![
        result(1, vec![("no-empty", vec![diagnostic(Severity::Error, "no-empty", "a")])]),
        result(2, vec![("no-empty", vec![diagnostic(Severity::Warning, "no-empty", "b")])]),
        result(3, vec![]),
        result(
            4,
            vec![(
                "no-empty",
                vec![diagnostic(Severity::Warning, "no-empty", "c"), diagnostic(Severity::Bug, "no-empty", "d")],
            )],
        ),
        result(5, vec![("no-empty", vec![diagnostic(Severity::Note, "no-empty", "e")])]),
    ];
    let summary = summarize(&results);
    assert_eq!(summary.failures, 2);
    assert_eq!(summary.warnings, 1);
    assert_eq!(summary.successes, 2);
    assert_eq!(summary.overall, Outcome::Failure);
    assert_eq!(summary.failures + summary.warnings + summary.successes, results.len());
}

#[test]
fn summarize_of_no_files_is_success() {
    let summary = summarize(&vec![]);
    assert_eq!((summary.failures, summary.warnings, summary.successes), (0, 0, 0));
    assert_eq!(summary.overall, Outcome::Success);
}

#[test]
fn result_holds_each_rule_once() {
    assert!(result(1, vec![]).is_well_formed());
    assert!(result(1, vec![("no-empty", vec![])]).is_well_formed());
    assert!(result(1, vec![("no-empty", vec![]), ("no-debugger", vec![]), ("no-extra-semi", vec![])])
        .is_well_formed());
    assert!(!result(1, vec![("no-empty", vec![]), ("no-empty", vec![])]).is_well_formed());
    assert!(!result(1, vec![("no-empty", vec![]), ("no-debugger", vec![]), ("no-empty", vec![])])
        .is_well_formed());
    assert!(!result(1, vec![("a", vec![]), ("b", vec![]), ("b", vec![])]).is_well_formed());
}

#[test]
fn reclassify_keeps_each_rule_once() {
    let mut results = vec![result(
        1,
        vec![
            ("no-empty", vec![diagnostic(Severity::Error, "no-empty", "a")]),
            ("no-debugger", vec![diagnostic(Severity::Error, "no-debugger", "b")]),
        ],
    )];
    reclassify(&mut results, &Some(config(vec![("no-empty", RuleLevel::Warning)])));
    assert!(results[0].is_well_formed());
    let names: Vec<&str> =
        results[0].rule_diagnostics.iter().map(|group| group.rule_name.as_str()).collect();
    assert_eq!(names, vec!["no-empty", "no-debugger"]);
}

#[test]
fn reclassify_never_raises_the_outcome() {
    let severities =
        [Severity::Bug, Severity::Error, Severity::Warning, Severity::Note, Severity::Help];
    for severity in severities {
        for level in [RuleLevel::Warning, RuleLevel::Error, RuleLevel::Off] {
            let before = result(1, vec![("no-empty", vec![diagnostic(severity, "no-empty", "a")])]);
            let mut after = vec![before.clone()];
            reclassify(&mut after, &Some(config(vec![("no-empty", level)])));
            let rank = |outcome: Outcome| match outcome {
                Outcome::Success => 0,
                Outcome::Warning => 1,
                Outcome::Failure => 2,
            };
            assert!(rank(after[0].outcome()) <= rank(before.outcome()));
        }
    }
}

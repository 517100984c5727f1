//! Explanations of rules: where their documentation is fetched from, and
//! how the fetched documents are made ready for a terminal.

use rslint_core::Rule;
use vstd::prelude::*;
use vstd::string::*;
use vstd::utf8::{decode_utf8, valid_utf8};

use crate::document::{
    code_of_blocks, highlight_code_blocks, highlight_headings, highlight_inline_code,
    spec_code_of_blocks, spec_highlight_code_blocks, spec_highlight_headings,
    spec_highlight_inline_code, spec_strip_prelude, spec_strip_trailing_sections, strip_prelude,
    strip_trailing_sections,
};
use crate::pattern::texts_of;
use crate::style::{ansi_paint, Style};

verus! {

/// Where the documents of the rules are fetched from.
pub const DOCS_LINK_BASE: &'static str =
    "https://raw.githubusercontent.com/RDambrosio016/RSLint/master/docs/rules";

/// Where the documents of the rules can be read in a browser.
pub const WEBSITE_DOCS_BASE: &'static str = "https://rdambrosio016.github.io/RSLint/rules";

/// The line that is printed above each document.
pub const SEPARATOR: &'static str = "----------";

/// The label of the link at the end of a document.
pub const LINK_LABEL: &'static str = "Docs";

/// The group of the built-in rule with the given name, or `None` where no
/// built-in rule has that name.
pub uninterp spec fn spec_rule_group(name: Seq<char>) -> Option<Seq<char>>;

/// Trusted: `rslint_core::get_rule_by_name`, and `Rule::group` on the rule
/// it finds.
///
/// The claim is only that the group found depends on nothing but the name.
#[verifier::external_body]
fn rule_group(name: &str) -> (group: Option<String>)
    ensures
        match group {
            Some(group) => spec_rule_group(name@) == Some(group@),
            None => spec_rule_group(name@) is None,
        },
{
    rslint_core::get_rule_by_name(name).map(|rule| rule.group().to_string())
}

/// Trusted: `String::from_utf8`.
///
/// The claim is that bytes which are well-formed UTF-8 give the text they
/// encode, and other bytes give nothing.
#[verifier::external_body]
fn text_from_utf8(bytes: Vec<u8>) -> (text: Option<String>)
    ensures
        match text {
            Some(text) => valid_utf8(bytes@) && text@ == decode_utf8(bytes@),
            None => !valid_utf8(bytes@),
        },
{
    String::from_utf8(bytes).ok()
}

/// The address of the document of a rule below `base`.
pub open spec fn spec_rule_url(base: Seq<char>, group: Seq<char>, name: Seq<char>) -> Seq<char> {
    base + "/"@ + group + "/"@ + name + ".md"@
}

/// The address of the document of a rule below `base`: the base, the
/// rule's group, and the rule's name with the ending `.md`.
pub fn rule_url(base: &str, group: &str, name: &str) -> (url: String)
    ensures
        url@ == spec_rule_url(base@, group@, name@),
{
    let mut url = String::from_str(base);
    url.append("/");
    url.append(group);
    url.append("/");
    url.append(name);
    url.append(".md");
    url
}

/// The address the document of a rule is fetched from, if there is such a
/// rule.
pub open spec fn spec_doc_file_url(name: Seq<char>) -> Option<Seq<char>> {
    match spec_rule_group(name) {
        Some(group) => Some(spec_rule_url(DOCS_LINK_BASE@, group, name)),
        None => None,
    }
}

/// Resolves the name of a rule and gives the address its document is
/// fetched from. A name that no rule has gives `None`, and nothing is to
/// be fetched for it.
pub fn doc_file_url(name: &str) -> (url: Option<String>)
    ensures
        match url {
            Some(url) => spec_doc_file_url(name@) == Some(url@),
            None => spec_doc_file_url(name@) is None,
        },
{
    match rule_group(name) {
        Some(group) => Some(rule_url(DOCS_LINK_BASE, group.as_str(), name)),
        None => None,
    }
}

/// How fetching a document ended.
#[derive(Clone, Debug, PartialEq, Eq)]
pub enum FetchOutcome {
    /// The document, as the bytes that were sent.
    Content(Vec<u8>),
    /// The address points elsewhere.
    Redirect,
    /// The server holds that the document has not changed.
    NotModified,
    /// The request could not be made or was not answered.
    Failed,
}

/// An answer to a fetch that nothing can be done with.
#[derive(Clone, Copy, Debug, PartialEq, Eq, Structural)]
pub enum FetchFault {
    /// The address pointed elsewhere.
    Redirect,
    /// The server held that the document has not changed, though it was
    /// not asked whether it has.
    NotModified,
    /// The document is not text.
    NotText,
}

impl FetchFault {
    /// The words in which the fault is reported.
    pub open spec fn spec_message(self) -> Seq<char> {
        match self {
            FetchFault::Redirect => "Unexpected redirect while fetching rule docs"@,
            FetchFault::NotModified => "Unexpected 304(Not modified) result"@,
            FetchFault::NotText => "Unexpected non-utf8 rule docs"@,
        }
    }

    /// The words in which the fault is reported.
    pub fn message(&self) -> (message: String)
        ensures
            message@ == self.spec_message(),
    {
        match self {
            FetchFault::Redirect => String::from_str(
                "Unexpected redirect while fetching rule docs",
            ),
            FetchFault::NotModified => String::from_str("Unexpected 304(Not modified) result"),
            FetchFault::NotText => String::from_str("Unexpected non-utf8 rule docs"),
        }
    }
}

/// Makes a document of what a fetch brought.
///
/// Content that is text is the document. A fetch that failed brings no
/// document, which is no fault. A redirect, an unasked-for "not modified"
/// and content that is not text are faults.
pub fn document_from_fetch(outcome: FetchOutcome) -> (document: Result<Option<String>, FetchFault>)
    ensures
        match outcome {
            FetchOutcome::Content(bytes) => if valid_utf8(bytes@) {
                document matches Ok(Some(text)) && text@ == decode_utf8(bytes@)
            } else {
                document == Err::<Option<String>, FetchFault>(FetchFault::NotText)
            },
            FetchOutcome::Redirect => document == Err::<Option<String>, FetchFault>(
                FetchFault::Redirect,
            ),
            FetchOutcome::NotModified => document == Err::<Option<String>, FetchFault>(
                FetchFault::NotModified,
            ),
            FetchOutcome::Failed => document == Ok::<Option<String>, FetchFault>(None),
        },
{
    match outcome {
        FetchOutcome::Content(bytes) => match text_from_utf8(bytes) {
            Some(text) => Ok(Some(text)),
            None => Err(FetchFault::NotText),
        },
        FetchOutcome::Redirect => Err(FetchFault::Redirect),
        FetchOutcome::NotModified => Err(FetchFault::NotModified),
        FetchOutcome::Failed => Ok(None),
    }
}

/// The line at the end of a document that links to where the document can
/// be read in a browser.
pub open spec fn spec_docs_link_line(group: Seq<char>, name: Seq<char>) -> Seq<char> {
    Style::spec_label().spec_paint(LINK_LABEL@) + ": "@ + spec_rule_url(
        WEBSITE_DOCS_BASE@,
        group,
        name,
    ) + "\n"@
}

/// Makes the line that links to where the document of a rule can be read
/// in a browser: a green label, and the address.
pub fn docs_link_line(group: &str, name: &str) -> (line: String)
    ensures
        line@ == spec_docs_link_line(group@, name@),
{
    let mut line = ansi_paint(&Style::label(), LINK_LABEL);
    line.append(": ");
    line.append(rule_url(WEBSITE_DOCS_BASE, group, name).as_str());
    line.append("\n");
    line
}

/// A document with the link to its rule at its end. A document whose rule
/// does not resolve stays as it is.
pub open spec fn spec_with_link(text: Seq<char>, name: Seq<char>) -> Seq<char> {
    match spec_rule_group(name) {
        Some(group) => text + spec_docs_link_line(group, name),
        None => text,
    }
}

/// The name of a rule and what fetching its document brought.
#[derive(Clone, Debug, PartialEq, Eq)]
pub struct Fetched {
    pub rule: String,
    /// The document, or `None` where there is no such rule or the fetch
    /// failed.
    pub document: Option<String>,
}

/// What a [`Fetched`] holds.
pub struct FetchedView {
    pub rule: Seq<char>,
    pub document: Option<Seq<char>>,
}

impl View for Fetched {
    type V = FetchedView;

    open spec fn view(&self) -> FetchedView {
        FetchedView {
            rule: self.rule@,
            document: match self.document {
                Some(document) => Some(document@),
                None => None,
            },
        }
    }
}

/// What each of a list of fetches holds.
pub open spec fn fetched_views(fetched: Seq<Fetched>) -> Seq<FetchedView> {
    fetched.map_values(|one: Fetched| one@)
}

/// The message that reports a rule whose document could not be had.
pub open spec fn spec_fetch_failure(rule: Seq<char>) -> Seq<char> {
    "Failed to fetch rule docs for `"@ + rule + "`"@
}

/// The documents that were fetched, in the order they were asked for.
pub open spec fn spec_fetched_documents(fetched: Seq<FetchedView>) -> Seq<Seq<char>>
    decreases fetched.len(),
{
    if fetched.len() == 0 {
        seq![]
    } else {
        match fetched.last().document {
            Some(document) => spec_fetched_documents(fetched.drop_last()).push(document),
            None => spec_fetched_documents(fetched.drop_last()),
        }
    }
}

/// The names of all rules that were asked for, in the order they were
/// asked for.
pub open spec fn spec_requested_names(fetched: Seq<FetchedView>) -> Seq<Seq<char>> {
    fetched.map_values(|one: FetchedView| one.rule)
}

/// The names of the rules whose documents were fetched, in the order they
/// were asked for.
pub open spec fn spec_fetched_names(fetched: Seq<FetchedView>) -> Seq<Seq<char>>
    decreases fetched.len(),
{
    if fetched.len() == 0 {
        seq![]
    } else {
        match fetched.last().document {
            Some(_) => spec_fetched_names(fetched.drop_last()).push(fetched.last().rule),
            None => spec_fetched_names(fetched.drop_last()),
        }
    }
}

/// A message for each rule whose document could not be had, in the order
/// the rules were asked for.
pub open spec fn spec_fetch_failures(fetched: Seq<FetchedView>) -> Seq<Seq<char>>
    decreases fetched.len(),
{
    if fetched.len() == 0 {
        seq![]
    } else {
        match fetched.last().document {
            Some(_) => spec_fetch_failures(fetched.drop_last()),
            None => spec_fetch_failures(fetched.drop_last()).push(
                spec_fetch_failure(fetched.last().rule),
            ),
        }
    }
}

/// A document that is shorter than the boilerplate every stored document
/// starts with, or whose boilerplate would end inside a character.
#[derive(Clone, Copy, Debug, PartialEq, Eq, Structural)]
pub struct MissingPrelude {
    /// The place of the document among the documents of the runner.
    pub document: usize,
}

/// Turns the documents of rules, as they are stored, into explanations for
/// a terminal.
#[derive(Clone, Debug, PartialEq, Eq)]
pub struct ExplanationRunner {
    /// The documents that were had, in the order their rules were asked
    /// for.
    pub rules: Vec<String>,
    /// The names of all rules that were asked for, in the order they were
    /// asked for, with or without a document.
    pub rule_names: Vec<String>,
    /// The name of the rule of each document, in the order of the
    /// documents.
    pub document_rules: Vec<String>,
}

/// What an [`ExplanationRunner`] holds.
pub struct ExplanationRunnerView {
    pub rules: Seq<Seq<char>>,
    pub rule_names: Seq<Seq<char>>,
    pub document_rules: Seq<Seq<char>>,
}

impl View for ExplanationRunner {
    type V = ExplanationRunnerView;

    open spec fn view(&self) -> ExplanationRunnerView {
        ExplanationRunnerView {
            rules: texts_of(self.rules@),
            rule_names: texts_of(self.rule_names@),
            document_rules: texts_of(self.document_rules@),
        }
    }
}

/// A step that is applied to every document in the same way.
#[derive(Clone, Copy, Debug, PartialEq, Eq, Structural)]
pub enum Stage {
    TrailingSections,
    Headings,
    InlineCode,
}

impl Stage {
    /// What the stage turns a document into.
    pub open spec fn spec_apply(self, text: Seq<char>) -> Seq<char> {
        match self {
            Stage::TrailingSections => spec_strip_trailing_sections(text),
            Stage::Headings => spec_highlight_headings(text),
            Stage::InlineCode => spec_highlight_inline_code(text),
        }
    }

    /// Applies the stage to one document.
    pub fn apply(self, text: &str) -> (shown: String)
        ensures
            shown@ == self.spec_apply(text@),
    {
        match self {
            Stage::TrailingSections => strip_trailing_sections(text),
            Stage::Headings => highlight_headings(text),
            Stage::InlineCode => highlight_inline_code(text),
        }
    }
}

/// What a stored document is when its code is handed out for rendering:
/// the boilerplate is removed, the trailing sections are cut off and the
/// headings are highlighted, in this order. `None` where the document is
/// too short for its boilerplate.
pub open spec fn spec_rendered_until_code(text: Seq<char>) -> Option<Seq<char>> {
    match spec_strip_prelude(text) {
        Some(body) => Some(spec_highlight_headings(spec_strip_trailing_sections(body))),
        None => None,
    }
}

/// What a document becomes once the renderings of its code are there:
/// each fenced block is replaced by its rendering, inline code is
/// highlighted and the link to the rule is added, in this order.
pub open spec fn spec_rendered_from_code(
    text: Seq<char>,
    name: Option<Seq<char>>,
    colored: Seq<Seq<char>>,
) -> Seq<char> {
    let spanned = spec_highlight_inline_code(spec_highlight_code_blocks(text, colored));
    match name {
        Some(name) => spec_with_link(spanned, name),
        None => spanned,
    }
}

/// The renderings given for the code of document `i`, or none where none
/// were given for it.
pub open spec fn spec_colored_at(colored: Seq<Vec<String>>, i: int) -> Seq<Seq<char>> {
    if 0 <= i < colored.len() {
        texts_of(colored[i]@)
    } else {
        seq![]
    }
}

/// The name that belongs to document `i`, if there is one.
pub open spec fn spec_name_at(names: Seq<Seq<char>>, i: int) -> Option<Seq<char>> {
    if 0 <= i < names.len() {
        Some(names[i])
    } else {
        None
    }
}

/// What is printed for a list of documents: above each document a line of
/// dashes.
pub open spec fn spec_printed(documents: Seq<Seq<char>>) -> Seq<char>
    decreases documents.len(),
{
    if documents.len() == 0 {
        seq![]
    } else {
        spec_printed(documents.drop_last()) + SEPARATOR@ + "\n"@ + documents.last() + "\n"@
    }
}

impl ExplanationRunner {
    /// Makes a runner of what was fetched for each rule that was asked for.
    ///
    /// The runner holds the name of every rule that was asked for and the
    /// documents that were fetched, each with the name of its own rule, all
    /// in the order the rules were asked for. For each rule without a
    /// document there is a message to report; such a rule does not keep
    /// the others from being explained.
    pub fn new(fetched: Vec<Fetched>) -> (made: (ExplanationRunner, Vec<String>))
        ensures
            made.0@.rules == spec_fetched_documents(fetched_views(fetched@)),
            made.0@.rule_names == spec_requested_names(fetched_views(fetched@)),
            made.0@.document_rules == spec_fetched_names(fetched_views(fetched@)),
            made.0@.document_rules.len() == made.0@.rules.len(),
            texts_of(made.1@) == spec_fetch_failures(fetched_views(fetched@)),
    {
        let ghost views = fetched_views(fetched@);
        let mut rules: Vec<String> = Vec::new();
        let mut rule_names: Vec<String> = Vec::new();
        let mut document_rules: Vec<String> = Vec::new();
        let mut failures: Vec<String> = Vec::new();
        for one in it: fetched
            invariant
                it.seq() == fetched@,
                views == fetched_views(fetched@),
                rules@.len() == document_rules@.len(),
                texts_of(rules@) == spec_fetched_documents(views.take(it.index() as int)),
                texts_of(rule_names@) == spec_requested_names(views.take(it.index() as int)),
                texts_of(document_rules@) == spec_fetched_names(views.take(it.index() as int)),
                texts_of(failures@) == spec_fetch_failures(views.take(it.index() as int)),
        {
            proof {
                assert(views.take(it.index() + 1).drop_last() =~= views.take(it.index() as int));
                assert(views.take(it.index() + 1).last() == one@);
            }
            let ghost docs_before = texts_of(rules@);
            let ghost names_before = texts_of(rule_names@);
            let ghost owners_before = texts_of(document_rules@);
            let ghost failures_before = texts_of(failures@);
            rule_names.push(one.rule.clone());
            assert(texts_of(rule_names@) =~= names_before.push(one.rule@));
            assert(spec_requested_names(views.take(it.index() + 1)) =~= spec_requested_names(
                views.take(it.index() as int),
            ).push(one.rule@));
            match one.document {
                Some(document) => {
                    rules.push(document);
                    document_rules.push(one.rule);
                    assert(texts_of(rules@) =~= docs_before.push(document@));
                    assert(texts_of(document_rules@) =~= owners_before.push(one.rule@));
                },
                None => {
                    let mut message = String::from_str("Failed to fetch rule docs for `");
                    message.append(one.rule.as_str());
                    message.append("`");
                    failures.push(message);
                    assert(texts_of(failures@) =~= failures_before.push(message@));
                },
            }
        }
        assert(views.take(views.len() as int) =~= views);
        (ExplanationRunner { rules, rule_names, document_rules }, failures)
    }

    /// Applies a stage to every document.
    fn apply_stage(&mut self, stage: Stage)
        ensures
            final(self).rule_names == old(self).rule_names,
            final(self).document_rules == old(self).document_rules,
            final(self)@.rules.len() == old(self)@.rules.len(),
            forall|i: int|
                0 <= i < old(self)@.rules.len() ==> final(self)@.rules[i] == stage.spec_apply(
                    #[trigger] old(self)@.rules[i],
                ),
    {
        let mut shown: Vec<String> = Vec::new();
        let mut i: usize = 0;
        while i < self.rules.len()
            invariant
                i <= self.rules.len(),
                shown@.len() == i,
                forall|j: int|
                    0 <= j < i ==> shown@[j]@ == stage.spec_apply((#[trigger] self.rules@[j])@),
            decreases self.rules.len() - i,
        {
            shown.push(stage.apply(self.rules[i].as_str()));
            i += 1;
        }
        self.rules = shown;
    }

    /// Removes from every document the boilerplate it starts with.
    ///
    /// Where a document is too short for that, or the boilerplate would end
    /// inside a character, nothing is changed and the first such document
    /// is named.
    pub fn strip_rule_preludes(&mut self) -> (done: Result<(), MissingPrelude>)
        ensures
            match done {
                Ok(_) => {
                    &&& final(self).rule_names == old(self).rule_names
                    &&& final(self).document_rules == old(self).document_rules
                    &&& final(self)@.rules.len() == old(self)@.rules.len()
                    &&& forall|i: int|
                        0 <= i < old(self)@.rules.len() ==> spec_strip_prelude(
                            #[trigger] old(self)@.rules[i],
                        ) == Some(final(self)@.rules[i])
                },
                Err(missing) => {
                    &&& *final(self) == *old(self)
                    &&& missing.document < old(self)@.rules.len()
                    &&& spec_strip_prelude(old(self)@.rules[missing.document as int]) is None
                    &&& forall|i: int|
                        0 <= i < missing.document ==> spec_strip_prelude(
                            #[trigger] old(self)@.rules[i],
                        ) is Some
                },
            },
    {
        let mut stripped: Vec<String> = Vec::new();
        let mut i: usize = 0;
        while i < self.rules.len()
            invariant
                i <= self.rules.len(),
                stripped@.len() == i,
                *self == *old(self),
                forall|j: int|
                    0 <= j < i ==> spec_strip_prelude((#[trigger] self.rules@[j])@) == Some(
                        stripped@[j]@,
                    ),
            decreases self.rules.len() - i,
        {
            match strip_prelude(self.rules[i].as_str()) {
                Some(rest) => {
                    stripped.push(rest);
                },
                None => {
                    return Err(MissingPrelude { document: i });
                },
            }
            i += 1;
        }
        self.rules = stripped;
        Ok(())
    }

    /// Cuts every document off where its section on configuration or its
    /// further examples begin.
    pub fn strip_config_or_extra_examples(&mut self)
        ensures
            final(self).rule_names == old(self).rule_names,
            final(self).document_rules == old(self).document_rules,
            final(self)@.rules.len() == old(self)@.rules.len(),
            forall|i: int|
                0 <= i < old(self)@.rules.len() ==> final(self)@.rules[i]
                    == spec_strip_trailing_sections(#[trigger] old(self)@.rules[i]),
    {
        self.apply_stage(Stage::TrailingSections);
    }

    /// Shows the headings of every document in bold.
    pub fn replace_headers(&mut self)
        ensures
            final(self).rule_names == old(self).rule_names,
            final(self).document_rules == old(self).document_rules,
            final(self)@.rules.len() == old(self)@.rules.len(),
            forall|i: int|
                0 <= i < old(self)@.rules.len() ==> final(self)@.rules[i]
                    == spec_highlight_headings(#[trigger] old(self)@.rules[i]),
    {
        self.apply_stage(Stage::Headings);
    }

    /// Hands out the code of the fenced blocks of JavaScript of every
    /// document, for a colorizer to render: one list for each document, in
    /// the order of the documents and of their blocks.
    pub fn code_blocks(&self) -> (codes: Vec<Vec<String>>)
        ensures
            codes@.len() == self@.rules.len(),
            forall|i: int|
                0 <= i < codes@.len() ==> texts_of((#[trigger] codes@[i])@) == spec_code_of_blocks(
                    self@.rules[i],
                ),
    {
        let mut codes: Vec<Vec<String>> = Vec::new();
        let mut i: usize = 0;
        while i < self.rules.len()
            invariant
                i <= self.rules.len(),
                codes@.len() == i,
                forall|j: int|
                    0 <= j < i ==> texts_of((#[trigger] codes@[j])@) == spec_code_of_blocks(
                        self.rules@[j]@,
                    ),
            decreases self.rules.len() - i,
        {
            codes.push(code_of_blocks(self.rules[i].as_str()));
            i += 1;
        }
        codes
    }

    /// Replaces the fenced blocks of JavaScript of every document by the
    /// renderings given for their code, each between two blank lines.
    /// `colored` holds one list of renderings for each document. A document
    /// for which there is not one rendering for each block stays as it is.
    pub fn replace_code_blocks(&mut self, colored: &Vec<Vec<String>>)
        ensures
            final(self).rule_names == old(self).rule_names,
            final(self).document_rules == old(self).document_rules,
            final(self)@.rules.len() == old(self)@.rules.len(),
            forall|i: int|
                0 <= i < old(self)@.rules.len() ==> final(self)@.rules[i]
                    == spec_highlight_code_blocks(
                    #[trigger] old(self)@.rules[i],
                    spec_colored_at(colored@, i),
                ),
    {
        let none: Vec<String> = Vec::new();
        let mut shown: Vec<String> = Vec::new();
        let mut i: usize = 0;
        while i < self.rules.len()
            invariant
                i <= self.rules.len(),
                shown@.len() == i,
                none@.len() == 0,
                forall|j: int|
                    0 <= j < i ==> shown@[j]@ == spec_highlight_code_blocks(
                        (#[trigger] self.rules@[j])@,
                        spec_colored_at(colored@, j),
                    ),
            decreases self.rules.len() - i,
        {
            let given = if i < colored.len() {
                &colored[i]
            } else {
                &none
            };
            assert(texts_of(given@) =~= spec_colored_at(colored@, i as int));
            shown.push(highlight_code_blocks(self.rules[i].as_str(), given));
            i += 1;
        }
        self.rules = shown;
    }

    /// Shows the inline code of every document in light on dark.
    pub fn replace_inline_code_blocks(&mut self)
        ensures
            final(self).rule_names == old(self).rule_names,
            final(self).document_rules == old(self).document_rules,
            final(self)@.rules.len() == old(self)@.rules.len(),
            forall|i: int|
                0 <= i < old(self)@.rules.len() ==> final(self)@.rules[i]
                    == spec_highlight_inline_code(#[trigger] old(self)@.rules[i]),
    {
        self.apply_stage(Stage::InlineCode);
    }

    /// Adds to every document the link to where the document of its own
    /// rule can be read in a browser. A document whose rule is not held,
    /// or is held under a name that no rule has, stays as it is; a name
    /// that was asked for and has no document plays no part.
    pub fn append_link_to_docs(&mut self)
        ensures
            final(self).rule_names == old(self).rule_names,
            final(self).document_rules == old(self).document_rules,
            final(self)@.rules.len() == old(self)@.rules.len(),
            forall|i: int|
                0 <= i < old(self)@.rules.len() ==> final(self)@.rules[i] == match spec_name_at(
                    old(self)@.document_rules,
                    i,
                ) {
                    Some(name) => spec_with_link(#[trigger] old(self)@.rules[i], name),
                    None => old(self)@.rules[i],
                },
    {
        let mut linked: Vec<String> = Vec::new();
        let mut i: usize = 0;
        while i < self.rules.len()
            invariant
                i <= self.rules.len(),
                linked@.len() == i,
                forall|j: int|
                    0 <= j < i ==> linked@[j]@ == match spec_name_at(self@.document_rules, j) {
                        Some(name) => spec_with_link((#[trigger] self.rules@[j])@, name),
                        None => self.rules@[j]@,
                    },
            decreases self.rules.len() - i,
        {
            let mut document = self.rules[i].clone();
            if i < self.document_rules.len() {
                let name = self.document_rules[i].as_str();
                match rule_group(name) {
                    Some(group) => {
                        document.append(docs_link_line(group.as_str(), name).as_str());
                    },
                    None => {},
                }
            }
            linked.push(document);
            i += 1;
        }
        self.rules = linked;
    }

    /// Takes every document through the stages that come before the
    /// rendering of its code, once and in their order: the boilerplate is
    /// removed, the trailing sections are cut off and the headings are
    /// highlighted. Hands out the code of the fenced blocks of every
    /// document, as [`ExplanationRunner::code_blocks`] does.
    ///
    /// Where a document is too short for the boilerplate that is removed
    /// first, nothing is changed and the first such document is named.
    pub fn render_until_code(&mut self) -> (done: Result<Vec<Vec<String>>, MissingPrelude>)
        ensures
            match done {
                Ok(codes) => {
                    &&& final(self).rule_names == old(self).rule_names
                    &&& final(self).document_rules == old(self).document_rules
                    &&& final(self)@.rules.len() == old(self)@.rules.len()
                    &&& codes@.len() == old(self)@.rules.len()
                    &&& forall|i: int|
                        0 <= i < old(self)@.rules.len() ==> {
                            &&& spec_rendered_until_code(#[trigger] old(self)@.rules[i]) == Some(
                                final(self)@.rules[i],
                            )
                            &&& texts_of(codes@[i]@) == spec_code_of_blocks(final(self)@.rules[i])
                        }
                },
                Err(missing) => {
                    &&& *final(self) == *old(self)
                    &&& missing.document < old(self)@.rules.len()
                    &&& spec_strip_prelude(old(self)@.rules[missing.document as int]) is None
                    &&& forall|i: int|
                        0 <= i < missing.document ==> spec_strip_prelude(
                            #[trigger] old(self)@.rules[i],
                        ) is Some
                },
            },
    {
        match self.strip_rule_preludes() {
            Err(missing) => {
                return Err(missing);
            },
            Ok(_) => {},
        }
        let ghost stored = old(self)@.rules;
        let ghost bodies = self@.rules;
        self.strip_config_or_extra_examples();
        let ghost kept = self@.rules;
        self.replace_headers();
        let codes = self.code_blocks();
        proof {
            assert forall|i: int| 0 <= i < stored.len() implies spec_rendered_until_code(
                #[trigger] stored[i],
            ) == Some(self@.rules[i]) by {
                assert(spec_strip_prelude(stored[i]) == Some(bodies[i]));
                assert(kept[i] == spec_strip_trailing_sections(bodies[i]));
            }
        }
        Ok(codes)
    }

    /// Takes every document through the stages that follow the rendering
    /// of its code, once and in their order: each fenced block is replaced
    /// by the rendering given for its code, inline code is highlighted, and
    /// the link to the document's own rule is added. `colored` holds one
    /// list of renderings for each document.
    pub fn render_from_code(&mut self, colored: &Vec<Vec<String>>)
        ensures
            final(self).rule_names == old(self).rule_names,
            final(self).document_rules == old(self).document_rules,
            final(self)@.rules.len() == old(self)@.rules.len(),
            forall|i: int|
                0 <= i < old(self)@.rules.len() ==> final(self)@.rules[i]
                    == spec_rendered_from_code(
                    #[trigger] old(self)@.rules[i],
                    spec_name_at(old(self)@.document_rules, i),
                    spec_colored_at(colored@, i),
                ),
    {
        let ghost before = self@.rules;
        self.replace_code_blocks(colored);
        let ghost highlighted = self@.rules;
        self.replace_inline_code_blocks();
        let ghost spanned = self@.rules;
        self.append_link_to_docs();
        proof {
            assert forall|i: int| 0 <= i < before.len() implies self@.rules[i]
                == spec_rendered_from_code(
                #[trigger] before[i],
                spec_name_at(old(self)@.document_rules, i),
                spec_colored_at(colored@, i),
            ) by {
                assert(highlighted[i] == spec_highlight_code_blocks(
                    before[i],
                    spec_colored_at(colored@, i),
                ));
                assert(spanned[i] == spec_highlight_inline_code(highlighted[i]));
            }
        }
    }

    /// Gives the text that is to be printed for the documents as they are:
    /// each document below a line of dashes, in the order the rules were
    /// asked for.
    pub fn print(&self) -> (text: String)
        ensures
            text@ == spec_printed(self@.rules),
    {
        printed(&self.rules)
    }
}

/// Puts a line of dashes above each document and the documents one below
/// the other.
pub fn printed(documents: &Vec<String>) -> (text: String)
    ensures
        text@ == spec_printed(texts_of(documents@)),
{
    let ghost shown = texts_of(documents@);
    let mut text = String::new();
    let mut i: usize = 0;
    while i < documents.len()
        invariant
            i <= documents.len(),
            shown == texts_of(documents@),
            text@ == spec_printed(shown.take(i as int)),
        decreases documents.len() - i,
    {
        assert(shown.take(i + 1).drop_last() =~= shown.take(i as int));
        text.append(SEPARATOR);
        text.append("\n");
        text.append(documents[i].as_str());
        text.append("\n");
        i += 1;
    }
    assert(shown.take(i as int) =~= shown);
    text
}

} // verus!

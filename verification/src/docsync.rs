//! Keeping each lint's reference document, help link and version numbers in
//! step with what its source declares.

use crate::rules::{help_link, help_link_text};
use crate::text::{
    chars_to_string, contains, contains_chars, copy_range, decimal, decimal_string, find_nth_part,
    lines, nth_part, matches_at, skip_repeated_prefix, split_lines, starts_with,
    str_to_chars, texts, trim, trim_bounds, trim_chars, trim_start_matches, views,
};
use vstd::prelude::*;

verus! {

/// The comment that opens every reference document.
pub const WARNING_COMMENT: &'static str =
    "<!-- This file has been autogenerated. Don't edit it!\nInstead, edit the documentation comment in the lint's src/lib.rs file. -->";

/// The reference document of the lint `lint_name` whose documentation is
/// `doc_comment`.
pub open spec fn readme_text(lint_name: Seq<char>, doc_comment: Seq<char>) -> Seq<char> {
    WARNING_COMMENT@ + "\n\n# "@ + lint_name + "\n\n"@ + doc_comment + "\n"@
}

/// Builds the reference document of the lint `lint_name` from its
/// documentation.
pub fn expected_readme_content(lint_name: &str, doc_comment: &str) -> (readme: String)
    ensures
        readme@ == readme_text(lint_name@, doc_comment@),
{
    let mut readme = WARNING_COMMENT.to_owned();
    readme.append("\n\n# ");
    readme.append(lint_name);
    readme.append("\n\n");
    readme.append(doc_comment);
    readme.append("\n");
    readme
}

/// What opens a line of documentation.
pub const DOC_MARKER: &'static str = "///";

/// What a line contributes to a documentation comment: nothing, unless the
/// line, whitespace around it aside, begins with the marker. Then it gives
/// what follows the markers without its first character, and a line feed.
pub open spec fn doc_line(line: Seq<char>) -> Option<Seq<char>> {
    let trimmed = trim(line);
    if starts_with(trimmed, DOC_MARKER@) {
        let rest = trim_start_matches(trimmed, DOC_MARKER@);
        if rest.len() == 0 {
            Some(seq!['\n'])
        } else {
            Some(rest.skip(1).push('\n'))
        }
    } else {
        None
    }
}

/// The documentation lines at the head of `lines`, one after the other, up
/// to the first line that is none.
pub open spec fn doc_run(lines: Seq<Seq<char>>) -> Seq<char>
    decreases lines.len(),
{
    if lines.len() == 0 {
        Seq::empty()
    } else {
        match doc_line(lines[0]) {
            Some(text) => text + doc_run(lines.drop_first()),
            None => Seq::empty(),
        }
    }
}

/// The first run of documentation lines in `lines`.
pub open spec fn first_doc_run(lines: Seq<Seq<char>>) -> Seq<char>
    decreases lines.len(),
{
    if lines.len() == 0 {
        Seq::empty()
    } else if doc_line(lines[0]) is Some {
        doc_run(lines)
    } else {
        first_doc_run(lines.drop_first())
    }
}

/// The documentation comment that `content` declares: its first run of
/// documentation lines, without whitespace at either end. There is none
/// where `content` has no documentation line.
pub open spec fn doc_comment(content: Seq<char>) -> Option<Seq<char>> {
    let run = first_doc_run(lines(content));
    if run.len() == 0 {
        None
    } else {
        Some(trim(run))
    }
}

/// What the line `line` contributes to a documentation comment.
fn read_doc_line(line: &Vec<char>, marker: &Vec<char>) -> (text: Option<Vec<char>>)
    requires
        marker@ == DOC_MARKER@,
    ensures
        text is Some == doc_line(line@) is Some,
        text matches Some(t) ==> Some(t@) == doc_line(line@),
{
    proof {
        reveal_strlit("///");
    }
    let trimmed = trim_chars(line);
    if !matches_at(&trimmed, marker, 0) {
        return None;
    }
    let at = skip_repeated_prefix(&trimmed, marker);
    let mut text = if at == trimmed.len() {
        Vec::new()
    } else {
        let rest = copy_range(&trimmed, at + 1, trimmed.len());
        proof {
            assert(rest@ =~= trimmed@.skip(at as int).skip(1));
        }
        rest
    };
    text.push('\n');
    proof {
        if at == trimmed.len() {
            assert(text@ =~= seq!['\n']);
        }
    }
    Some(text)
}

/// Extracts the documentation comment of a lint from the source that
/// declares it.
pub fn extract_lint_lib_doc_comment(lint_lib_rs_content: &str) -> (doc: Option<String>)
    ensures
        doc is Some == doc_comment(lint_lib_rs_content@) is Some,
        doc matches Some(d) ==> Some(d@) == doc_comment(lint_lib_rs_content@),
{
    let content = str_to_chars(lint_lib_rs_content);
    let marker = str_to_chars(DOC_MARKER);
    let source_lines = split_lines(&content);
    let ghost all = views(source_lines@);
    let mut in_doc_comment = false;
    let mut run: Vec<char> = Vec::new();
    let mut i: usize = 0;
    assert(all.skip(0) =~= all);
    while i < source_lines.len()
        invariant_except_break
            i <= source_lines.len(),
            !in_doc_comment ==> run@.len() == 0 && first_doc_run(all) == first_doc_run(
                all.skip(i as int),
            ),
            in_doc_comment ==> first_doc_run(all) == run@ + doc_run(all.skip(i as int)),
        invariant
            all == views(source_lines@),
            marker@ == DOC_MARKER@,
        ensures
            first_doc_run(all) == run@,
        decreases source_lines.len() - i,
    {
        let ghost rest = all.skip(i as int);
        proof {
            assert(rest[0] == source_lines@[i as int]@);
            assert(rest.drop_first() =~= all.skip(i + 1));
        }
        match read_doc_line(&source_lines[i], &marker) {
            Some(mut text) => {
                let ghost before = run@;
                let ghost added = text@;
                run.append(&mut text);
                proof {
                    assert(run@ =~= before + added);
                    assert(before + (added + doc_run(all.skip(i + 1))) =~= (before + added)
                        + doc_run(all.skip(i + 1)));
                }
                in_doc_comment = true;
            },
            None => {
                if in_doc_comment {
                    proof {
                        assert(run@ + Seq::<char>::empty() =~= run@);
                    }
                    break ;
                }
            },
        }
        i += 1;
    }
    if run.len() == 0 {
        None
    } else {
        let (from, to) = trim_bounds(&run);
        Some(chars_to_string(&run, from, to))
    }
}

/// What a visit of one lint decides about its reference document.
pub ghost enum SyncOutcome {
    /// The lint's source declares no documentation comment.
    MissingDocComment,
    /// The reference document is what the source gives.
    Keep,
    /// The reference document differs and is to be replaced by this text.
    Rewrite(Seq<char>),
}

/// What is to be decided about the reference document `readme` of the lint
/// `lint_name`, whose source is `lib_rs`.
pub open spec fn sync_outcome(lint_name: Seq<char>, lib_rs: Seq<char>, readme: Seq<char>) -> SyncOutcome {
    match doc_comment(lib_rs) {
        None => SyncOutcome::MissingDocComment,
        Some(doc) => {
            let expected = readme_text(lint_name, doc);
            if readme == expected {
                SyncOutcome::Keep
            } else {
                SyncOutcome::Rewrite(expected)
            }
        },
    }
}

/// What is to be done with a lint's reference document.
#[derive(Debug, PartialEq, Eq)]
pub enum SyncAction {
    /// Nothing: the document is up to date.
    Keep,
    /// The document is to be overwritten with this content.
    Rewrite(String),
}

/// A lint whose source declares no documentation comment.
#[derive(Debug, PartialEq, Eq)]
pub struct MissingDocComment {
    pub lint_name: String,
}

impl MissingDocComment {
    /// What the message says.
    pub open spec fn message_text(&self) -> Seq<char> {
        "Failed to extract documentation comment from lib/"@ + self.lint_name@ + "/src/lib.rs"@
    }

    /// The message that reports the failure.
    pub fn message(&self) -> (text: String)
        ensures
            text@ == self.message_text(),
    {
        let mut text = "Failed to extract documentation comment from lib/".to_owned();
        text.append(self.lint_name.as_str());
        text.append("/src/lib.rs");
        text
    }
}

/// Holds the reference document of one lint against what its source gives.
pub fn check_readme(lint_name: &str, lint_lib_rs_content: &str, readme_content: &str) -> (action:
    Result<SyncAction, MissingDocComment>)
    ensures
        match sync_outcome(lint_name@, lint_lib_rs_content@, readme_content@) {
            SyncOutcome::MissingDocComment => action matches Err(e) && e.lint_name@ == lint_name@,
            SyncOutcome::Keep => action matches Ok(SyncAction::Keep),
            SyncOutcome::Rewrite(expected) => action matches Ok(SyncAction::Rewrite(content))
                && content@ == expected,
        },
{
    match extract_lint_lib_doc_comment(lint_lib_rs_content) {
        None => Err(MissingDocComment { lint_name: lint_name.to_owned() }),
        Some(doc) => {
            let expected = expected_readme_content(lint_name, doc.as_str());
            if readme_content.to_owned() == expected {
                Ok(SyncAction::Keep)
            } else {
                Ok(SyncAction::Rewrite(expected))
            }
        },
    }
}

/// Once a reference document has been overwritten with what a visit asked
/// for, the next visit of the same source keeps it; and a visit that keeps
/// a document keeps it again.
pub proof fn lemma_rewrite_heals(lint_name: Seq<char>, lib_rs: Seq<char>, readme: Seq<char>)
    ensures
        sync_outcome(lint_name, lib_rs, readme) matches SyncOutcome::Rewrite(content)
            ==> sync_outcome(lint_name, lib_rs, content) == SyncOutcome::Keep,
        sync_outcome(lint_name, lib_rs, readme) == SyncOutcome::Keep ==> readme == readme_text(
            lint_name,
            doc_comment(lib_rs)->0,
        ),
{
}

/// The rendering of a list of strings that `{:?}` gives.
pub uninterp spec fn debug_list_text(names: Seq<Seq<char>>) -> Seq<char>;

/// Renders `names` with the `Debug` formatting of `Vec<String>`
/// (`format!("{:?}", ..)`). The rendering depends on the strings alone.
#[verifier::external_body]
fn debug_list(names: &Vec<String>) -> (text: String)
    ensures
        text@ == debug_list_text(texts(names@)),
{
    format!("{:?}", names)
}

/// What the verdict says when the documents of the lints rendered as
/// `list` had to be rewritten.
pub open spec fn failure_text(list: Seq<char>, in_ci: bool) -> Seq<char> {
    if in_ci {
        "The next lints READMEs are not updated: "@ + list
            + ". Run `cargo test -p tests` locally to update them and commit the changes."@
    } else {
        "The next lints READMEs have been updated: "@ + list
            + ". If you run again this test, it should pass."@
    }
}

/// The message of a failed run. `list` is the rendering of the names of
/// the lints whose documents were rewritten.
pub fn failure_message(list: &str, in_ci: bool) -> (text: String)
    ensures
        text@ == failure_text(list@, in_ci),
{
    if in_ci {
        let mut text = "The next lints READMEs are not updated: ".to_owned();
        text.append(list);
        text.append(". Run `cargo test -p tests` locally to update them and commit the changes.");
        text
    } else {
        let mut text = "The next lints READMEs have been updated: ".to_owned();
        text.append(list);
        text.append(". If you run again this test, it should pass.");
        text
    }
}

/// The state of one run over the lints: the names of those whose reference
/// documents had to be rewritten, in the order of the visits.
#[derive(Debug)]
pub struct Synchronizer {
    updated: Vec<String>,
}

impl Synchronizer {
    /// The names of the lints whose documents had to be rewritten so far.
    pub closed spec fn updated_names(&self) -> Seq<Seq<char>> {
        texts(self.updated@)
    }

    /// The state before the first visit.
    pub fn new() -> (run: Synchronizer)
        ensures
            run.updated_names() == Seq::<Seq<char>>::empty(),
    {
        let run = Synchronizer { updated: Vec::new() };
        assert(run.updated_names() =~= Seq::<Seq<char>>::empty());
        run
    }

    /// Visits one lint. The caller overwrites the lint's document where the
    /// action says so; the lint is then counted among those updated.
    pub fn visit(&mut self, lint_name: &str, lint_lib_rs_content: &str, readme_content: &str) -> (action:
        Result<SyncAction, MissingDocComment>)
        ensures
            match sync_outcome(lint_name@, lint_lib_rs_content@, readme_content@) {
                SyncOutcome::MissingDocComment => {
                    &&& action matches Err(e) && e.lint_name@ == lint_name@
                    &&& final(self).updated_names() == old(self).updated_names()
                },
                SyncOutcome::Keep => {
                    &&& action matches Ok(SyncAction::Keep)
                    &&& final(self).updated_names() == old(self).updated_names()
                },
                SyncOutcome::Rewrite(expected) => {
                    &&& action matches Ok(SyncAction::Rewrite(content)) && content@ == expected
                    &&& final(self).updated_names() == old(self).updated_names().push(lint_name@)
                },
            },
    {
        let action = check_readme(lint_name, lint_lib_rs_content, readme_content);
        if let Ok(SyncAction::Rewrite(_)) = &action {
            self.updated.push(lint_name.to_owned());
            assert(self.updated_names() =~= old(self).updated_names().push(lint_name@));
        }
        action
    }

    /// The names of the lints whose documents had to be rewritten.
    pub fn updated(&self) -> (names: &Vec<String>)
        ensures
            texts(names@) == self.updated_names(),
    {
        &self.updated
    }

    /// The verdict of the run: it passes where no document had to be
    /// rewritten, and fails otherwise with a message that lists the lints
    /// concerned.
    pub fn finish(&self, in_ci: bool) -> (verdict: Result<(), String>)
        ensures
            verdict is Ok <==> self.updated_names().len() == 0,
            verdict matches Err(message) ==> message@ == failure_text(
                debug_list_text(self.updated_names()),
                in_ci,
            ),
    {
        if self.updated.len() == 0 {
            Ok(())
        } else {
            let list = debug_list(&self.updated);
            Err(failure_message(list.as_str(), in_ci))
        }
    }
}

/// The files of one lint: its name, the source that declares it and its
/// reference document.
#[derive(Debug, PartialEq, Eq)]
pub struct LintFiles {
    pub name: String,
    pub lib_rs: String,
    pub readme: String,
}

/// The files of one lint as plain values.
pub ghost struct LintFilesView {
    pub name: Seq<char>,
    pub lib_rs: Seq<char>,
    pub readme: Seq<char>,
}

impl View for LintFiles {
    type V = LintFilesView;

    open spec fn view(&self) -> LintFilesView {
        LintFilesView { name: self.name@, lib_rs: self.lib_rs@, readme: self.readme@ }
    }
}

/// The views of the files in `lints`.
pub open spec fn file_views(lints: Seq<LintFiles>) -> Seq<LintFilesView> {
    Seq::new(lints.len(), |i: int| lints[i]@)
}

/// What a run has come to: each reference document as the run leaves it,
/// and the names of the lints whose document it rewrote.
pub ghost struct RunView {
    pub readmes: Seq<Seq<char>>,
    pub updated: Seq<Seq<char>>,
}

/// The reference document of `lint` as a visit leaves it.
pub open spec fn readme_after(lint: LintFilesView) -> Seq<char> {
    match sync_outcome(lint.name, lint.lib_rs, lint.readme) {
        SyncOutcome::Rewrite(expected) => expected,
        _ => lint.readme,
    }
}

/// What a run over the first `n` of `lints` comes to; or the name of the
/// first lint among them whose source declares no documentation comment.
pub open spec fn run_after(lints: Seq<LintFilesView>, n: int) -> Result<RunView, Seq<char>>
    decreases n,
{
    if n <= 0 {
        Ok(RunView { readmes: Seq::empty(), updated: Seq::empty() })
    } else {
        match run_after(lints, n - 1) {
            Err(name) => Err(name),
            Ok(run) => {
                let lint = lints[n - 1];
                match sync_outcome(lint.name, lint.lib_rs, lint.readme) {
                    SyncOutcome::MissingDocComment => Err(lint.name),
                    SyncOutcome::Keep => Ok(
                        RunView { readmes: run.readmes.push(lint.readme), updated: run.updated },
                    ),
                    SyncOutcome::Rewrite(expected) => Ok(
                        RunView {
                            readmes: run.readmes.push(expected),
                            updated: run.updated.push(lint.name),
                        },
                    ),
                }
            },
        }
    }
}

/// `lints` with the reference documents replaced by `readmes`.
pub open spec fn with_readmes(lints: Seq<LintFilesView>, readmes: Seq<Seq<char>>) -> Seq<
    LintFilesView,
> {
    Seq::new(
        lints.len(),
        |i: int| LintFilesView { name: lints[i].name, lib_rs: lints[i].lib_rs, readme: readmes[i] },
    )
}

/// Once a run has met a lint without documentation, visiting further lints
/// does not change the outcome.
proof fn lemma_missing_doc_persists(lints: Seq<LintFilesView>, n: int, m: int)
    requires
        n <= m,
        run_after(lints, n) is Err,
    ensures
        run_after(lints, m) == run_after(lints, n),
    decreases m - n,
{
    if n < m {
        lemma_missing_doc_persists(lints, n, m - 1);
    }
}

/// A run that succeeds leaves each document as its visit leaves it.
proof fn lemma_run_readmes(lints: Seq<LintFilesView>, n: int)
    requires
        0 <= n <= lints.len(),
        run_after(lints, n) is Ok,
    ensures
        run_after(lints, n)->Ok_0.readmes == Seq::new(n as nat, |i: int| readme_after(lints[i])),
        forall|i: int| 0 <= i < n ==> doc_comment(#[trigger] lints[i].lib_rs) is Some,
    decreases n,
{
    if n > 0 {
        lemma_run_readmes(lints, n - 1);
        assert(run_after(lints, n)->Ok_0.readmes =~= Seq::new(
            n as nat,
            |i: int| readme_after(lints[i]),
        ));
    }
}

/// A run over lints whose documents are all up to date keeps every
/// document and updates none.
proof fn lemma_run_keeps(lints: Seq<LintFilesView>, n: int)
    requires
        0 <= n <= lints.len(),
        forall|i: int|
            0 <= i < n ==> sync_outcome(
                (#[trigger] lints[i]).name,
                lints[i].lib_rs,
                lints[i].readme,
            ) == SyncOutcome::Keep,
    ensures
        run_after(lints, n) == Ok::<RunView, Seq<char>>(
            RunView {
                readmes: Seq::new(n as nat, |i: int| lints[i].readme),
                updated: Seq::empty(),
            },
        ),
    decreases n,
{
    if n > 0 {
        lemma_run_keeps(lints, n - 1);
        let lint = lints[n - 1];
        assert(sync_outcome(lint.name, lint.lib_rs, lint.readme) == SyncOutcome::Keep);
        assert(Seq::new((n - 1) as nat, |i: int| lints[i].readme).push(lint.readme) =~= Seq::new(
            n as nat,
            |i: int| lints[i].readme,
        ));
    } else {
        assert(Seq::new(0nat, |i: int| lints[i].readme) =~= Seq::<Seq<char>>::empty());
    }
}

/// Running twice in a row over unchanged sources: after a run that met no
/// lint without documentation, a second run over the documents as the
/// first left them rewrites none and leaves all as they are.
pub proof fn lemma_second_run_updates_nothing(lints: Seq<LintFilesView>)
    requires
        run_after(lints, lints.len() as int) is Ok,
    ensures
        run_after(
            with_readmes(lints, run_after(lints, lints.len() as int)->Ok_0.readmes),
            lints.len() as int,
        ) == Ok::<RunView, Seq<char>>(
            RunView {
                readmes: run_after(lints, lints.len() as int)->Ok_0.readmes,
                updated: Seq::empty(),
            },
        ),
{
    let n = lints.len() as int;
    let first = run_after(lints, n)->Ok_0;
    let healed = with_readmes(lints, first.readmes);
    lemma_run_readmes(lints, n);
    assert forall|i: int| 0 <= i < n implies sync_outcome(
        (#[trigger] healed[i]).name,
        healed[i].lib_rs,
        healed[i].readme,
    ) == SyncOutcome::Keep by {
        assert(doc_comment(lints[i].lib_rs) is Some);
        lemma_rewrite_heals(lints[i].name, lints[i].lib_rs, lints[i].readme);
    }
    lemma_run_keeps(healed, n);
    assert(Seq::new(n as nat, |i: int| healed[i].readme) =~= first.readmes);
}

/// Runs over `lints` in order. Gives each reference document as the run
/// leaves it and the state of the run; or the first lint whose source
/// declares no documentation comment.
pub fn synchronize(lints: &Vec<LintFiles>) -> (outcome: Result<
    (Vec<String>, Synchronizer),
    MissingDocComment,
>)
    ensures
        match run_after(file_views(lints@), lints@.len() as int) {
            Ok(run) => outcome matches Ok((readmes, state)) && texts(readmes@) == run.readmes
                && state.updated_names() == run.updated,
            Err(name) => outcome matches Err(e) && e.lint_name@ == name,
        },
{
    let ghost all = file_views(lints@);
    let mut state = Synchronizer::new();
    let mut readmes: Vec<String> = Vec::new();
    let mut i: usize = 0;
    assert(texts(readmes@) =~= Seq::<Seq<char>>::empty());
    while i < lints.len()
        invariant
            i <= lints.len(),
            all == file_views(lints@),
            run_after(all, i as int) == Ok::<RunView, Seq<char>>(
                RunView { readmes: texts(readmes@), updated: state.updated_names() },
            ),
        decreases lints.len() - i,
    {
        let lint = &lints[i];
        assert(all[i as int] == lint@);
        let ghost before = texts(readmes@);
        match state.visit(lint.name.as_str(), lint.lib_rs.as_str(), lint.readme.as_str()) {
            Err(e) => {
                proof {
                    lemma_missing_doc_persists(all, i + 1, all.len() as int);
                }
                return Err(e);
            },
            Ok(SyncAction::Keep) => {
                readmes.push(lint.readme.clone());
                assert(texts(readmes@) =~= before.push(lint.readme@));
            },
            Ok(SyncAction::Rewrite(content)) => {
                let ghost expected = content@;
                readmes.push(content);
                assert(texts(readmes@) =~= before.push(expected));
            },
        }
        i += 1;
    }
    Ok((readmes, state))
}

/// The words that must lead to the help link in a lint's source.
pub const HELP_PHRASE: &'static str = "for further information visit";

/// A lint whose source lacks the lead-in phrase, its help link, or both.
#[derive(Debug, PartialEq, Eq)]
pub struct HelpLinkError {
    pub lint_name: String,
    /// The link that the source must hold.
    pub expected_link: String,
    /// Whether the source holds the lead-in phrase.
    pub has_phrase: bool,
    /// Whether the source holds the link.
    pub has_link: bool,
}

impl HelpLinkError {
    /// What the message says: which of the two is missing (the phrase
    /// first), in which lint, and the link that was looked for.
    pub open spec fn message_text(&self) -> Seq<char> {
        if !self.has_phrase {
            "Lint help does not contains the sentence \"for further information visit\" at file lib/"@
                + self.lint_name@ + "/src/lib.rs. Expected link: "@ + self.expected_link@
        } else {
            "Lint help does not contains the link to README.md at file lib/"@ + self.lint_name@
                + "/src/lib.rs. Expected link: "@ + self.expected_link@
        }
    }

    /// The message that reports the failure.
    pub fn message(&self) -> (text: String)
        ensures
            text@ == self.message_text(),
    {
        let mut text = if !self.has_phrase {
            "Lint help does not contains the sentence \"for further information visit\" at file lib/".to_owned()
        } else {
            "Lint help does not contains the link to README.md at file lib/".to_owned()
        };
        text.append(self.lint_name.as_str());
        text.append("/src/lib.rs. Expected link: ");
        text.append(self.expected_link.as_str());
        text
    }
}

/// Checks that the source of the lint `lint_name` holds the lead-in phrase
/// and the help link that the lint's name gives.
pub fn lint_has_help_link(lint_name: &str, lint_lib_rs_content: &str) -> (verdict: Result<
    (),
    HelpLinkError,
>)
    ensures
        verdict is Ok <==> contains(lint_lib_rs_content@, HELP_PHRASE@) && contains(
            lint_lib_rs_content@,
            help_link_text(lint_name@),
        ),
        verdict matches Err(e) ==> {
            &&& e.lint_name@ == lint_name@
            &&& e.expected_link@ == help_link_text(lint_name@)
            &&& e.has_phrase == contains(lint_lib_rs_content@, HELP_PHRASE@)
            &&& e.has_link == contains(lint_lib_rs_content@, help_link_text(lint_name@))
        },
{
    let content = str_to_chars(lint_lib_rs_content);
    let phrase = str_to_chars(HELP_PHRASE);
    let expected_link = help_link(lint_name);
    let link = str_to_chars(expected_link.as_str());
    let has_phrase = contains_chars(&content, &phrase);
    let has_link = contains_chars(&content, &link);
    if has_phrase && has_link {
        Ok(())
    } else {
        Err(HelpLinkError { lint_name: lint_name.to_owned(), expected_link, has_phrase, has_link })
    }
}

/// The first of `lines` that begins with `prefix`.
pub open spec fn first_line_with_prefix(lines: Seq<Seq<char>>, prefix: Seq<char>) -> Option<
    Seq<char>,
>
    decreases lines.len(),
{
    if lines.len() == 0 {
        None
    } else if starts_with(lines[0], prefix) {
        Some(lines[0])
    } else {
        first_line_with_prefix(lines.drop_first(), prefix)
    }
}

/// The version that a manifest declares: on the first line that begins
/// with `key`, what stands between the first two double quotes.
pub open spec fn manifest_version(content: Seq<char>, key: Seq<char>) -> Option<Seq<char>> {
    match first_line_with_prefix(lines(content), key) {
        Some(line) => nth_part(line, '"', 1),
        None => None,
    }
}

/// Extracts the version from the content of a manifest: on the first line
/// that begins with `match_`, what stands between the first two double
/// quotes.
pub fn extract_version_from_cargo_toml_content(content: &str, match_: &str) -> (version: Option<
    String,
>)
    ensures
        version is Some == manifest_version(content@, match_@) is Some,
        version matches Some(v) ==> Some(v@) == manifest_version(content@, match_@),
{
    let chars = str_to_chars(content);
    let key = str_to_chars(match_);
    let all_lines = split_lines(&chars);
    let ghost all = views(all_lines@);
    let mut i: usize = 0;
    assert(all.skip(0) =~= all);
    while i < all_lines.len()
        invariant
            i <= all_lines.len(),
            all == views(all_lines@),
            all == lines(content@),
            key@ == match_@,
            first_line_with_prefix(all, key@) == first_line_with_prefix(all.skip(i as int), key@),
        decreases all_lines.len() - i,
    {
        proof {
            assert(all.skip(i as int)[0] == all_lines@[i as int]@);
            assert(all.skip(i as int).drop_first() =~= all.skip(i + 1));
        }
        if matches_at(&all_lines[i], &key, 0) {
            return match find_nth_part(&all_lines[i], '"', 1) {
                Some(part) => {
                    assert(part@.subrange(0, part@.len() as int) =~= part@);
                    Some(chars_to_string(&part, 0, part.len()))
                },
                None => None,
            };
        }
        i += 1;
    }
    None
}

/// What marks a line that names a version tag.
pub const TAG_MARKER: &'static str = "tag = \"";

/// What a line contributes to the versions of a descriptive document.
pub ghost enum TagReading {
    /// The line names no tag.
    Nothing,
    /// The line names this version.
    Version(Seq<char>),
    /// The line names this tag, which does not begin with `v`.
    Unprefixed(Seq<char>),
}

/// What `line` contributes: where it holds the tag marker and has a
/// fourth part among those that double quotes delimit, that part is its
/// tag, and the tag without its leading `v` is its version.
pub open spec fn read_tag(line: Seq<char>) -> TagReading {
    if contains(line, TAG_MARKER@) {
        match nth_part(line, '"', 3) {
            Some(tag) => if tag.len() > 0 && tag[0] == 'v' {
                TagReading::Version(tag.skip(1))
            } else {
                TagReading::Unprefixed(tag)
            },
            None => TagReading::Nothing,
        }
    } else {
        TagReading::Nothing
    }
}

/// The versions that the first `n` of `lines` name, in order; or the first
/// tag among them that does not begin with `v`.
pub open spec fn tagged_versions(lines: Seq<Seq<char>>, n: int) -> Result<Seq<Seq<char>>, Seq<char>>
    decreases n,
{
    if n <= 0 {
        Ok(Seq::empty())
    } else {
        match tagged_versions(lines, n - 1) {
            Err(tag) => Err(tag),
            Ok(versions) => match read_tag(lines[n - 1]) {
                TagReading::Nothing => Ok(versions),
                TagReading::Version(version) => Ok(versions.push(version)),
                TagReading::Unprefixed(tag) => Err(tag),
            },
        }
    }
}

/// The versions that the descriptive document `content` names.
pub open spec fn readme_versions(content: Seq<char>) -> Result<Seq<Seq<char>>, Seq<char>> {
    tagged_versions(lines(content), lines(content).len() as int)
}

/// Once a tag without its `v` has been read, reading further lines does not
/// change the outcome.
proof fn lemma_unprefixed_tag_persists(lines: Seq<Seq<char>>, n: int, m: int)
    requires
        n <= m,
        tagged_versions(lines, n) is Err,
    ensures
        tagged_versions(lines, m) == tagged_versions(lines, n),
    decreases m - n,
{
    if n < m {
        lemma_unprefixed_tag_persists(lines, n, m - 1);
    }
}

/// A tag that does not begin with `v`.
#[derive(Debug, PartialEq, Eq)]
pub struct UnprefixedTag {
    pub tag: String,
}

/// Extracts the versions that a descriptive document names in its tagged
/// lines, in order. Fails on the first tag that does not begin with `v`.
pub fn extract_versions_from_readme_content(content: &str) -> (versions: Result<
    Vec<String>,
    UnprefixedTag,
>)
    ensures
        match readme_versions(content@) {
            Ok(expected) => versions matches Ok(found) && texts(found@) == expected,
            Err(tag) => versions matches Err(e) && e.tag@ == tag,
        },
{
    let chars = str_to_chars(content);
    let marker = str_to_chars(TAG_MARKER);
    let all_lines = split_lines(&chars);
    let ghost all = views(all_lines@);
    let mut versions: Vec<String> = Vec::new();
    let mut i: usize = 0;
    assert(texts(versions@) =~= Seq::<Seq<char>>::empty());
    while i < all_lines.len()
        invariant
            i <= all_lines.len(),
            all == views(all_lines@),
            all == lines(content@),
            marker@ == TAG_MARKER@,
            tagged_versions(all, i as int) == Ok::<Seq<Seq<char>>, Seq<char>>(texts(versions@)),
        decreases all_lines.len() - i,
    {
        let line = &all_lines[i];
        assert(all[i as int] == line@);
        if contains_chars(line, &marker) {
            if let Some(tag) = find_nth_part(line, '"', 3) {
                if tag.len() > 0 && tag[0] == 'v' {
                    let ghost before = texts(versions@);
                    let version = chars_to_string(&tag, 1, tag.len());
                    assert(version@ =~= tag@.skip(1));
                    versions.push(version);
                    assert(texts(versions@) =~= before.push(tag@.skip(1)));
                } else {
                    proof {
                        assert(tag@.subrange(0, tag@.len() as int) =~= tag@);
                        lemma_unprefixed_tag_persists(all, i + 1, all.len() as int);
                    }
                    return Err(UnprefixedTag { tag: chars_to_string(&tag, 0, tag.len()) });
                }
            }
        }
        i += 1;
    }
    Ok(versions)
}

/// The key of the line that declares the version in a manifest.
pub const VERSION_KEY: &'static str = "version =";

/// The number of version references that a descriptive document must hold.
pub const EXPECTED_VERSION_REFERENCES: usize = 2;

/// Why the versions of a manifest and of a descriptive document do not
/// agree.
#[derive(Debug, PartialEq, Eq)]
pub enum VersionError {
    /// The manifest declares no version.
    MissingManifestVersion,
    /// A tag of the descriptive document does not begin with `v`.
    UnprefixedTag { tag: String },
    /// The descriptive document names `count` versions, not two.
    WrongCount { count: usize },
    /// The descriptive document names `found` where the manifest declares
    /// `expected`.
    Mismatch { found: String, expected: String },
}

/// A version error as plain values.
pub ghost enum VersionErrorView {
    MissingManifestVersion,
    UnprefixedTag { tag: Seq<char> },
    WrongCount { count: nat },
    Mismatch { found: Seq<char>, expected: Seq<char> },
}

impl View for VersionError {
    type V = VersionErrorView;

    open spec fn view(&self) -> VersionErrorView {
        match self {
            VersionError::MissingManifestVersion => VersionErrorView::MissingManifestVersion,
            VersionError::UnprefixedTag { tag } => VersionErrorView::UnprefixedTag { tag: tag@ },
            VersionError::WrongCount { count } => VersionErrorView::WrongCount {
                count: *count as nat,
            },
            VersionError::Mismatch { found, expected } => VersionErrorView::Mismatch {
                found: found@,
                expected: expected@,
            },
        }
    }
}

/// What the message of a version error says.
pub open spec fn version_error_text(error: VersionErrorView) -> Seq<char> {
    match error {
        VersionErrorView::MissingManifestVersion => "Failed to extract version from Cargo.toml"@,
        VersionErrorView::UnprefixedTag { tag } => "Tag version should start with 'v'"@,
        VersionErrorView::WrongCount { count } => "Expected exactly two versions in README.md, found "@
            + decimal(count),
        VersionErrorView::Mismatch { found, expected } => "Version in README.md ("@ + found
            + ") does not match Cargo.toml version ("@ + expected + ")"@,
    }
}

impl VersionError {
    /// The message that reports the error.
    pub fn message(&self) -> (text: String)
        ensures
            text@ == version_error_text(self@),
    {
        match self {
            VersionError::MissingManifestVersion => {
                "Failed to extract version from Cargo.toml".to_owned()
            },
            VersionError::UnprefixedTag { tag } => "Tag version should start with 'v'".to_owned(),
            VersionError::WrongCount { count } => {
                let mut text = "Expected exactly two versions in README.md, found ".to_owned();
                let digits = decimal_string(*count);
                text.append(digits.as_str());
                text
            },
            VersionError::Mismatch { found, expected } => {
                let mut text = "Version in README.md (".to_owned();
                text.append(found.as_str());
                text.append(") does not match Cargo.toml version (");
                text.append(expected.as_str());
                text.append(")");
                text
            },
        }
    }
}

/// The first of `versions` that differs from `expected`.
pub open spec fn first_mismatch(versions: Seq<Seq<char>>, expected: Seq<char>) -> Option<Seq<char>>
    decreases versions.len(),
{
    if versions.len() == 0 {
        None
    } else if versions[0] != expected {
        Some(versions[0])
    } else {
        first_mismatch(versions.drop_first(), expected)
    }
}

/// Whether the descriptive document `readme` agrees with the manifest
/// `manifest`: the manifest declares a version, the document names exactly
/// two, and both are the manifest's. Otherwise the first thing that is
/// wrong, in this order: the manifest, the tags, the count, the values.
pub open spec fn version_check(manifest: Seq<char>, readme: Seq<char>) -> Result<
    (),
    VersionErrorView,
> {
    match manifest_version(manifest, VERSION_KEY@) {
        None => Err(VersionErrorView::MissingManifestVersion),
        Some(expected) => match readme_versions(readme) {
            Err(tag) => Err(VersionErrorView::UnprefixedTag { tag }),
            Ok(versions) => if versions.len() != EXPECTED_VERSION_REFERENCES {
                Err(VersionErrorView::WrongCount { count: versions.len() })
            } else {
                match first_mismatch(versions, expected) {
                    Some(found) => Err(VersionErrorView::Mismatch { found, expected }),
                    None => Ok(()),
                }
            },
        },
    }
}

/// Checks that the versions which the descriptive document names are those
/// of the manifest.
pub fn check_version_consistency(cargo_toml_content: &str, readme_content: &str) -> (verdict:
    Result<(), VersionError>)
    ensures
        match version_check(cargo_toml_content@, readme_content@) {
            Ok(_) => verdict is Ok,
            Err(error) => verdict matches Err(e) && e@ == error,
        },
{
    let expected_version = match extract_version_from_cargo_toml_content(
        cargo_toml_content,
        VERSION_KEY,
    ) {
        Some(version) => version,
        None => {
            return Err(VersionError::MissingManifestVersion);
        },
    };
    let found_versions = match extract_versions_from_readme_content(readme_content) {
        Ok(versions) => versions,
        Err(e) => {
            return Err(VersionError::UnprefixedTag { tag: e.tag });
        },
    };
    let number_of_readme_versions = found_versions.len();
    if number_of_readme_versions != EXPECTED_VERSION_REFERENCES {
        return Err(VersionError::WrongCount { count: number_of_readme_versions });
    }
    let ghost all = texts(found_versions@);
    let mut i: usize = 0;
    assert(all.skip(0) =~= all);
    while i < found_versions.len()
        invariant
            i <= found_versions.len(),
            all == texts(found_versions@),
            all.len() == EXPECTED_VERSION_REFERENCES,
            manifest_version(cargo_toml_content@, VERSION_KEY@) == Some(expected_version@),
            readme_versions(readme_content@) == Ok::<Seq<Seq<char>>, Seq<char>>(all),
            first_mismatch(all, expected_version@) == first_mismatch(
                all.skip(i as int),
                expected_version@,
            ),
        decreases found_versions.len() - i,
    {
        proof {
            assert(all.skip(i as int)[0] == found_versions@[i as int]@);
            assert(all.skip(i as int).drop_first() =~= all.skip(i + 1));
        }
        if found_versions[i] != expected_version {
            return Err(
                VersionError::Mismatch {
                    found: found_versions[i].clone(),
                    expected: expected_version,
                },
            );
        }
        i += 1;
    }
    Ok(())
}

} // verus!

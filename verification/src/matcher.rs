//! Deciding whether a call site invokes the function that a rule looks for.

use crate::rules::Rule;
use crate::text::{
    contains, first_occurrence, lemma_first_occurrence, occurs_at, split_on, split_on_chars,
    str_to_chars, texts,
};
use vstd::prelude::*;

verus! {

/// A range of the source text, in bytes from the start of the compilation
/// unit.
#[derive(Clone, Copy, Debug, PartialEq, Eq, Structural)]
pub struct SourceRange {
    pub start: u32,
    pub end: u32,
}

/// A path as it is written at the call site: its segments, qualifiers
/// first.
#[derive(Debug, PartialEq, Eq)]
pub struct SyntacticPath {
    pub segments: Vec<String>,
}

/// What stands between the segments of a path in its text.
pub const PATH_SEPARATOR: &'static str = "::";

/// The segments of the path that `text` spells.
pub open spec fn path_segments(text: Seq<char>) -> Seq<Seq<char>> {
    split_on(text, PATH_SEPARATOR@)
}

/// The last segment of a path's text is the part after its last separator:
/// it holds no separator, the text ends with it, and it is either the
/// whole text or preceded by a separator.
pub proof fn lemma_last_segment_follows_last_separator(text: Seq<char>)
    ensures
        path_segments(text).len() > 0,
        !contains(path_segments(text).last(), PATH_SEPARATOR@),
        path_segments(text).last().len() <= text.len(),
        text.skip(text.len() - path_segments(text).last().len()) == path_segments(text).last(),
        path_segments(text).len() == 1 ==> path_segments(text).last() == text,
        path_segments(text).len() > 1 ==> occurs_at(
            text,
            PATH_SEPARATOR@,
            text.len() - path_segments(text).last().len() - PATH_SEPARATOR@.len(),
        ),
    decreases text.len(),
{
    reveal_strlit("::");
    let separator = PATH_SEPARATOR@;
    let i = first_occurrence(text, separator) as int;
    lemma_first_occurrence(text, separator);
    if i + separator.len() > text.len() {
        assert(text.skip(0) =~= text);
    } else {
        let rest = text.skip(i + separator.len());
        lemma_last_segment_follows_last_separator(rest);
        let tail = path_segments(rest);
        let last = tail.last();
        assert(path_segments(text) =~= seq![text.take(i)] + tail);
        assert(path_segments(text).last() == last);
        assert(text.skip(text.len() - last.len()) =~= rest.skip(rest.len() - last.len()));
        if tail.len() > 1 {
            let at = rest.len() - last.len() - separator.len();
            assert(text.subrange(
                i + separator.len() + at,
                i + separator.len() + at + separator.len(),
            ) =~= rest.subrange(at, at + separator.len()));
        } else {
            assert(last == rest);
        }
    }
}

impl SyntacticPath {
    /// Reads a path from its text: the parts between the separators.
    pub fn parse(text: &str) -> (path: SyntacticPath)
        ensures
            texts(path.segments@) == path_segments(text@),
            path.last_segment_text() == Some(path_segments(text@).last()),
    {
        proof {
            reveal_strlit("::");
            lemma_last_segment_follows_last_separator(text@);
        }
        let chars = str_to_chars(text);
        let separator = str_to_chars(PATH_SEPARATOR);
        let segments = split_on_chars(&chars, &separator);
        assert(texts(segments@).last() == segments@.last()@);
        SyntacticPath { segments }
    }

    /// The text of the last segment, where the path has one.
    pub open spec fn last_segment_text(&self) -> Option<Seq<char>> {
        if self.segments@.len() > 0 {
            Some(self.segments@.last()@)
        } else {
            None
        }
    }

    /// The last segment, where the path has one.
    pub fn last_segment(&self) -> (segment: Option<&String>)
        ensures
            segment is Some == self.last_segment_text() is Some,
            segment matches Some(s) ==> Some(s@) == self.last_segment_text(),
    {
        let n = self.segments.len();
        if n == 0 {
            None
        } else {
            Some(&self.segments[n - 1])
        }
    }
}

/// The definition that name resolution found for a callee.
#[derive(Debug, PartialEq, Eq)]
pub struct Identity {
    /// The name of the definition itself, without the modules around it.
    pub simple_name: String,
}

/// A call in the typed tree of one compilation unit.
#[derive(Debug, PartialEq, Eq)]
pub struct CallExpression {
    /// The callee as written.
    pub callee_reference: SyntacticPath,
    /// The definition that the callee resolves to, where resolution found
    /// one.
    pub resolved_identity: Option<Identity>,
    /// Where a finding about this call is reported.
    pub source_location: SourceRange,
}

/// The two ways of holding a call site against a rule.
#[derive(Clone, Copy, Debug, PartialEq, Eq, Structural)]
pub enum Strategy {
    /// By the definition that the callee resolves to. An unresolved callee
    /// never matches.
    Identity,
    /// By the text of the callee's last segment, whatever it resolves to.
    SegmentName,
}

/// What holding a call site against a rule gave.
#[derive(Clone, Copy, Debug, PartialEq, Eq)]
pub enum MatchResult<'a> {
    NoMatch,
    Match { rule: &'a Rule, location: SourceRange },
}

/// Whether the callee of `expr` resolves to a definition whose simple name
/// is the target of `rule`.
pub open spec fn identity_matches(expr: &CallExpression, rule: &Rule) -> bool {
    expr.resolved_identity matches Some(identity) && identity.simple_name@ == rule.target@
}

/// Whether the last segment of `path` is, as text, the target of `rule`.
pub open spec fn segment_name_matches(path: &SyntacticPath, rule: &Rule) -> bool {
    path.last_segment_text() == Some(rule.target@)
}

/// Whether `expr` matches `rule` under `strategy`.
pub open spec fn call_matches(expr: &CallExpression, rule: &Rule, strategy: Strategy) -> bool {
    match strategy {
        Strategy::Identity => identity_matches(expr, rule),
        Strategy::SegmentName => segment_name_matches(&expr.callee_reference, rule),
    }
}

/// Holds the resolved identity of `expr` against the target of `rule`.
pub fn match_identity(expr: &CallExpression, rule: &Rule) -> (matched: bool)
    ensures
        matched == identity_matches(expr, rule),
{
    match &expr.resolved_identity {
        Some(identity) => identity.simple_name == rule.target,
        None => false,
    }
}

/// Holds the last segment of `path` against the target of `rule`.
pub fn match_segment_name(path: &SyntacticPath, rule: &Rule) -> (matched: bool)
    ensures
        matched == segment_name_matches(path, rule),
{
    match path.last_segment() {
        Some(segment) => *segment == rule.target,
        None => false,
    }
}

/// Holds the call `expr` against `rule` under `strategy`. A match names the
/// rule and the call's location.
pub fn match_call<'a>(expr: &CallExpression, rule: &'a Rule, strategy: Strategy) -> (result:
    MatchResult<'a>)
    ensures
        call_matches(expr, rule, strategy) ==> result == (MatchResult::Match {
            rule,
            location: expr.source_location,
        }),
        !call_matches(expr, rule, strategy) ==> result == MatchResult::NoMatch,
        strategy == Strategy::Identity && expr.resolved_identity is None ==> result
            is NoMatch,
        strategy == Strategy::Identity && expr.resolved_identity is Some
            && expr.resolved_identity->0.simple_name@ == rule.target@ ==> result is Match,
        strategy == Strategy::SegmentName && expr.callee_reference.segments@.len() > 0
            && expr.callee_reference.segments@.last()@ == rule.target@ ==> result is Match,
        strategy == Strategy::SegmentName && expr.callee_reference.segments@.len() > 0
            && expr.callee_reference.segments@.last()@ != rule.target@ ==> result is NoMatch,
{
    let matched = match strategy {
        Strategy::Identity => match_identity(expr, rule),
        Strategy::SegmentName => match_segment_name(&expr.callee_reference, rule),
    };
    if matched {
        MatchResult::Match { rule, location: expr.source_location }
    } else {
        MatchResult::NoMatch
    }
}

} // verus!

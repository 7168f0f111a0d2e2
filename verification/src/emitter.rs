//! Turning a match into the diagnostic that the host renders.

use crate::matcher::{MatchResult, SourceRange};
use crate::rules::{Rule, Severity};
use vstd::prelude::*;

verus! {

/// What the host is told about one finding.
#[derive(Debug, PartialEq, Eq)]
pub struct Diagnostic {
    pub severity: Severity,
    pub primary_message: String,
    pub help: String,
    pub location: SourceRange,
}

/// A diagnostic as plain values.
pub ghost struct DiagnosticView {
    pub severity: Severity,
    pub primary_message: Seq<char>,
    pub help: Seq<char>,
    pub location: SourceRange,
}

impl View for Diagnostic {
    type V = DiagnosticView;

    open spec fn view(&self) -> DiagnosticView {
        DiagnosticView {
            severity: self.severity,
            primary_message: self.primary_message@,
            help: self.help@,
            location: self.location,
        }
    }
}

/// The diagnostic of a finding of `rule` at `location`: the rule's
/// severity, message and help text, the link in it built from the rule's
/// own name.
pub open spec fn diagnostic_of(rule: &Rule, location: SourceRange) -> DiagnosticView {
    DiagnosticView {
        severity: rule.severity,
        primary_message: rule.message_text(),
        help: rule.help_text(),
        location,
    }
}

/// Builds the diagnostic of a finding of `rule` at `location`.
pub fn build_diagnostic(rule: &Rule, location: SourceRange) -> (diagnostic: Diagnostic)
    ensures
        diagnostic@ == diagnostic_of(rule, location),
{
    Diagnostic {
        severity: rule.severity,
        primary_message: rule.message(),
        help: rule.help(),
        location,
    }
}

/// The lint levels in force at a node, as the host knows them: the names of
/// the rules that are suppressed there.
#[derive(Debug, PartialEq, Eq)]
pub struct Scope {
    pub suppressed: Vec<String>,
}

impl Scope {
    /// Whether the rule called `name` is suppressed in this scope.
    pub open spec fn suppresses(&self, name: Seq<char>) -> bool {
        exists|i: int| 0 <= i < self.suppressed@.len() && (#[trigger] self.suppressed@[i])@ == name
    }

    /// A scope in which no rule is suppressed.
    pub fn unrestricted() -> (scope: Scope)
        ensures
            forall|name: Seq<char>| !scope.suppresses(name),
    {
        Scope { suppressed: Vec::new() }
    }

    /// Tests whether the rule called `name` is suppressed in this scope.
    pub fn is_suppressed(&self, name: &String) -> (b: bool)
        ensures
            b == self.suppresses(name@),
    {
        let mut i: usize = 0;
        while i < self.suppressed.len()
            invariant
                i <= self.suppressed@.len(),
                forall|j: int| 0 <= j < i ==> (#[trigger] self.suppressed@[j])@ != name@,
            decreases self.suppressed@.len() - i,
        {
            if self.suppressed[i] == *name {
                return true;
            }
            i += 1;
        }
        false
    }
}

/// The views of the diagnostics in `stream`.
pub open spec fn diagnostic_views(stream: Seq<Diagnostic>) -> Seq<DiagnosticView> {
    Seq::new(stream.len(), |i: int| stream[i]@)
}

/// What reaches the stream when `result` is emitted in `scope`: the
/// diagnostic of a match whose rule the scope does not suppress.
pub open spec fn emitted(result: MatchResult, scope: &Scope) -> Seq<DiagnosticView> {
    match result {
        MatchResult::Match { rule, location } => if scope.suppresses(rule.name@) {
            Seq::empty()
        } else {
            seq![diagnostic_of(rule, location)]
        },
        MatchResult::NoMatch => Seq::empty(),
    }
}

/// Emits the diagnostic of `result` into `stream`, as the host does it: a
/// match is reported at its location unless `scope` suppresses its rule,
/// and nothing else changes the stream.
pub fn emit(result: &MatchResult, scope: &Scope, stream: &mut Vec<Diagnostic>)
    ensures
        diagnostic_views(final(stream)@) == diagnostic_views(old(stream)@) + emitted(
            *result,
            scope,
        ),
        result matches MatchResult::Match { rule, .. } && scope.suppresses(rule.name@)
            ==> diagnostic_views(final(stream)@) == diagnostic_views(old(stream)@),
        *result is NoMatch ==> diagnostic_views(final(stream)@) == diagnostic_views(
            old(stream)@,
        ),
{
    match result {
        MatchResult::Match { rule, location } => {
            if !scope.is_suppressed(&rule.name) {
                let diagnostic = build_diagnostic(rule, *location);
                stream.push(diagnostic);
                assert(diagnostic_views(stream@) =~= diagnostic_views(old(stream)@) + seq![
                    diagnostic_of(rule, *location),
                ]);
            } else {
                assert(diagnostic_views(stream@) =~= diagnostic_views(old(stream)@)
                    + Seq::<DiagnosticView>::empty());
            }
        },
        MatchResult::NoMatch => {
            assert(diagnostic_views(stream@) =~= diagnostic_views(old(stream)@)
                + Seq::<DiagnosticView>::empty());
        },
    }
}

} // verus!

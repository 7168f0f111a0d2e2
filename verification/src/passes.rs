//! The hooks that the host's traversal calls, one per kind of node.

use crate::emitter::{diagnostic_views, emit, emitted, Diagnostic, DiagnosticView, Scope};
use crate::matcher::{call_matches, match_call, CallExpression, MatchResult, Strategy};
use crate::rules::{Registry, Rule};
use vstd::prelude::*;

verus! {

/// An expression node, as far as the lints tell expressions apart.
#[derive(Debug, PartialEq, Eq)]
pub enum Expression {
    /// A call whose callee is written as a path.
    Call(CallExpression),
    /// Any other expression.
    Other,
}

/// What `rule` reports about the call `call` under `strategy` in `scope`.
pub open spec fn call_findings(
    rule: &Rule,
    call: &CallExpression,
    strategy: Strategy,
    scope: &Scope,
) -> Seq<DiagnosticView> {
    if call_matches(call, rule, strategy) {
        emitted(MatchResult::Match { rule, location: call.source_location }, scope)
    } else {
        Seq::empty()
    }
}

/// What `rule` reports about the expression `expr` in `scope`: calls are
/// held against the rule by the identity of their callee.
pub open spec fn expr_findings(rule: &Rule, expr: &Expression, scope: &Scope) -> Seq<
    DiagnosticView,
> {
    match expr {
        Expression::Call(call) => call_findings(rule, call, Strategy::Identity, scope),
        Expression::Other => Seq::empty(),
    }
}

/// What `rule` reports about a path node in `scope`: the path is held
/// against the rule by the text of its last segment.
pub open spec fn path_findings(rule: &Rule, node: &CallExpression, scope: &Scope) -> Seq<
    DiagnosticView,
> {
    call_findings(rule, node, Strategy::SegmentName, scope)
}

/// The lint pass of one rule.
#[derive(Clone, Copy, Debug)]
pub struct LintPass<'a> {
    pub rule: &'a Rule,
}

impl<'a> LintPass<'a> {
    /// The pass that reports the findings of `rule`.
    pub fn new(rule: &'a Rule) -> (pass: Self)
        ensures
            pass.rule == rule,
    {
        LintPass { rule }
    }

    /// Holds `call` against the rule under `strategy` and emits what was
    /// found.
    fn check_call(
        &self,
        call: &CallExpression,
        strategy: Strategy,
        scope: &Scope,
        stream: &mut Vec<Diagnostic>,
    )
        ensures
            diagnostic_views(final(stream)@) == diagnostic_views(old(stream)@) + call_findings(
                self.rule,
                call,
                strategy,
                scope,
            ),
    {
        let result = match_call(call, self.rule, strategy);
        emit(&result, scope, stream);
    }

    /// The hook for expression nodes. A call whose callee resolves to the
    /// rule's target is reported at the call's location; an expression
    /// that is no call, and a call in a scope that suppresses the rule,
    /// leave the stream as it was.
    pub fn check_expr(&self, expr: &Expression, scope: &Scope, stream: &mut Vec<Diagnostic>)
        ensures
            diagnostic_views(final(stream)@) == diagnostic_views(old(stream)@) + expr_findings(
                self.rule,
                expr,
                scope,
            ),
            scope.suppresses(self.rule.name@) ==> diagnostic_views(final(stream)@)
                == diagnostic_views(old(stream)@),
    {
        match expr {
            Expression::Call(call) => {
                self.check_call(call, Strategy::Identity, scope, stream);
            },
            Expression::Other => {},
        }
    }

    /// The hook for raw path nodes. A path whose last segment is the
    /// rule's target is reported at the node's location, whether or not it
    /// was resolved; in a scope that suppresses the rule the stream stays
    /// as it was.
    pub fn check_path(&self, node: &CallExpression, scope: &Scope, stream: &mut Vec<Diagnostic>)
        ensures
            diagnostic_views(final(stream)@) == diagnostic_views(old(stream)@) + path_findings(
                self.rule,
                node,
                scope,
            ),
            scope.suppresses(self.rule.name@) ==> diagnostic_views(final(stream)@)
                == diagnostic_views(old(stream)@),
    {
        self.check_call(node, Strategy::SegmentName, scope, stream);
    }
}

/// What the first `n` rules of `rules` report about `expr` in `scope`, in
/// the order of the rules.
pub open spec fn all_expr_findings(rules: Seq<Rule>, n: int, expr: &Expression, scope: &Scope) -> Seq<
    DiagnosticView,
>
    decreases n,
{
    if n <= 0 {
        Seq::empty()
    } else {
        all_expr_findings(rules, n - 1, expr, scope) + expr_findings(&rules[n - 1], expr, scope)
    }
}

/// What the first `n` rules of `rules` report about the path node `node`
/// in `scope`, in the order of the rules.
pub open spec fn all_path_findings(
    rules: Seq<Rule>,
    n: int,
    node: &CallExpression,
    scope: &Scope,
) -> Seq<DiagnosticView>
    decreases n,
{
    if n <= 0 {
        Seq::empty()
    } else {
        all_path_findings(rules, n - 1, node, scope) + path_findings(&rules[n - 1], node, scope)
    }
}

/// Runs the expression hook of every rule of `registry` on `expr`.
pub fn check_expr(
    registry: &Registry,
    expr: &Expression,
    scope: &Scope,
    stream: &mut Vec<Diagnostic>,
)
    ensures
        diagnostic_views(final(stream)@) == diagnostic_views(old(stream)@) + all_expr_findings(
            registry@,
            registry@.len() as int,
            expr,
            scope,
        ),
        (forall|i: int| 0 <= i < registry@.len() ==> scope.suppresses((#[trigger] registry@[i]).name@))
            ==> diagnostic_views(final(stream)@) == diagnostic_views(old(stream)@),
{
    proof {
        if forall|i: int| 0 <= i < registry@.len() ==> scope.suppresses((#[trigger] registry@[i]).name@) {
            lemma_suppressed_site_is_silent(registry@, registry@.len() as int, expr, scope);
        }
    }
    let mut i: usize = 0;
    while i < registry.len()
        invariant
            i <= registry@.len(),
            diagnostic_views(stream@) == diagnostic_views(old(stream)@) + all_expr_findings(
                registry@,
                i as int,
                expr,
                scope,
            ),
        decreases registry@.len() - i,
    {
        let pass = LintPass::new(registry.rule(i));
        pass.check_expr(expr, scope, stream);
        i += 1;
    }
}

/// Runs the path hook of every rule of `registry` on `node`.
pub fn check_path(
    registry: &Registry,
    node: &CallExpression,
    scope: &Scope,
    stream: &mut Vec<Diagnostic>,
)
    ensures
        diagnostic_views(final(stream)@) == diagnostic_views(old(stream)@) + all_path_findings(
            registry@,
            registry@.len() as int,
            node,
            scope,
        ),
        (forall|i: int| 0 <= i < registry@.len() ==> scope.suppresses((#[trigger] registry@[i]).name@))
            ==> diagnostic_views(final(stream)@) == diagnostic_views(old(stream)@),
{
    proof {
        if forall|i: int| 0 <= i < registry@.len() ==> scope.suppresses((#[trigger] registry@[i]).name@) {
            lemma_suppressed_path_is_silent(registry@, registry@.len() as int, node, scope);
        }
    }
    let mut i: usize = 0;
    while i < registry.len()
        invariant
            i <= registry@.len(),
            diagnostic_views(stream@) == diagnostic_views(old(stream)@) + all_path_findings(
                registry@,
                i as int,
                node,
                scope,
            ),
        decreases registry@.len() - i,
    {
        let pass = LintPass::new(registry.rule(i));
        pass.check_path(node, scope, stream);
        i += 1;
    }
}

/// At a call site where every rule of `rules` is suppressed, none of the
/// first `n` rules reports anything, whatever the expression matches.
pub proof fn lemma_suppressed_site_is_silent(
    rules: Seq<Rule>,
    n: int,
    expr: &Expression,
    scope: &Scope,
)
    requires
        n <= rules.len(),
        forall|i: int| 0 <= i < rules.len() ==> scope.suppresses((#[trigger] rules[i]).name@),
    ensures
        all_expr_findings(rules, n, expr, scope) == Seq::<DiagnosticView>::empty(),
    decreases n,
{
    if n > 0 {
        lemma_suppressed_site_is_silent(rules, n - 1, expr, scope);
        assert(scope.suppresses(rules[n - 1].name@));
    }
}

/// At a path node where every rule of `rules` is suppressed, none of the
/// first `n` rules reports anything, whatever the path's last segment is.
pub proof fn lemma_suppressed_path_is_silent(
    rules: Seq<Rule>,
    n: int,
    node: &CallExpression,
    scope: &Scope,
)
    requires
        n <= rules.len(),
        forall|i: int| 0 <= i < rules.len() ==> scope.suppresses((#[trigger] rules[i]).name@),
    ensures
        all_path_findings(rules, n, node, scope) == Seq::<DiagnosticView>::empty(),
    decreases n,
{
    if n > 0 {
        lemma_suppressed_path_is_silent(rules, n - 1, node, scope);
        assert(scope.suppresses(rules[n - 1].name@));
    }
}

} // verus!

use vstd::prelude::*;
use crate::diagnostic::{plain, ReportView, RuleContext, Severity};
use crate::linter::{lemma_silent_rule, tree_diagnostics};
use crate::rule::Rule;
use crate::tree::{SyntaxTree, lemma_node_span};

verus! {

/// Restricted syntax; without configured selectors it reports nothing.
#[derive(Clone, Copy, Debug)]
pub struct NoRestrictedSyntax;

impl Rule for NoRestrictedSyntax {
    open spec fn spec_name(&self) -> Seq<char> {
        "no-restricted-syntax"@
    }

    open spec fn spec_severity(&self) -> Severity {
        Severity::Warning
    }

    open spec fn spec_reports(&self, t: &SyntaxTree, n: int) -> Seq<ReportView> {
        Seq::empty()
    }

    proof fn lemma_reports_within(&self, t: &SyntaxTree, n: int) {
        lemma_node_span(t, n);
    }

    fn name(&self) -> &'static str {
        "no-restricted-syntax"
    }

    fn default_severity(&self) -> Severity {
        Severity::Warning
    }

    fn on_node(&self, t: &SyntaxTree, node: usize, ctx: &mut RuleContext) {

    }
}

/// The restricted-syntax rule, having nothing restricted, gives no diagnostics on any tree.
pub proof fn lemma_no_restricted_syntax_silent(tree: &SyntaxTree)
    ensures
        tree_diagnostics(&NoRestrictedSyntax, tree).len() == 0,
{
    lemma_silent_rule(&NoRestrictedSyntax, tree);
}

} // verus!

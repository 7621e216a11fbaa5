use vstd::prelude::*;
use crate::diagnostic::{plain, ReportView, RuleContext, Severity};
use crate::linter::{lemma_silent_rule, tree_diagnostics};
use crate::rule::Rule;
use crate::tree::{SyntaxTree, lemma_node_span};

verus! {

/// Brace style; as a formatting rule it is retired and reports nothing.
#[derive(Clone, Copy, Debug)]
pub struct BraceStyle;

impl Rule for BraceStyle {
    open spec fn spec_name(&self) -> Seq<char> {
        "brace-style"@
    }

    open spec fn spec_severity(&self) -> Severity {
        Severity::Warning
    }

    open spec fn spec_reports(&self, t: &SyntaxTree, n: int) -> Seq<ReportView> {
        Seq::empty()
    }

    proof fn lemma_reports_within(&self, t: &SyntaxTree, n: int) {
        lemma_node_span(t, n);
    }

    fn name(&self) -> &'static str {
        "brace-style"
    }

    fn default_severity(&self) -> Severity {
        Severity::Warning
    }

    fn on_node(&self, t: &SyntaxTree, node: usize, ctx: &mut RuleContext) {

    }
}

/// Brace style gives no diagnostics on any tree.
pub proof fn lemma_brace_style_silent(tree: &SyntaxTree)
    ensures
        tree_diagnostics(&BraceStyle, tree).len() == 0,
{
    lemma_silent_rule(&BraceStyle, tree);
}

} // verus!

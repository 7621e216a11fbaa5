use vstd::prelude::*;
use crate::diagnostic::{plain, ReportView, RuleContext, Severity};
use crate::linter::{lemma_silent_rule, tree_diagnostics};
use crate::rule::Rule;
use crate::tree::{SyntaxTree, lemma_node_span};

verus! {

/// Callback error handling; it would need scope analysis, and reports nothing.
#[derive(Clone, Copy, Debug)]
pub struct HandleCallbackErr;

impl Rule for HandleCallbackErr {
    open spec fn spec_name(&self) -> Seq<char> {
        "handle-callback-err"@
    }

    open spec fn spec_severity(&self) -> Severity {
        Severity::Warning
    }

    open spec fn spec_reports(&self, t: &SyntaxTree, n: int) -> Seq<ReportView> {
        Seq::empty()
    }

    proof fn lemma_reports_within(&self, t: &SyntaxTree, n: int) {
        lemma_node_span(t, n);
    }

    fn name(&self) -> &'static str {
        "handle-callback-err"
    }

    fn default_severity(&self) -> Severity {
        Severity::Warning
    }

    fn on_node(&self, t: &SyntaxTree, node: usize, ctx: &mut RuleContext) {

    }
}

/// The callback-error rule gives no diagnostics on any tree.
pub proof fn lemma_handle_callback_err_silent(tree: &SyntaxTree)
    ensures
        tree_diagnostics(&HandleCallbackErr, tree).len() == 0,
{
    lemma_silent_rule(&HandleCallbackErr, tree);
}

} // verus!

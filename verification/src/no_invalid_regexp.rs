use vstd::prelude::*;
use crate::diagnostic::{plain, ReportView, RuleContext, Severity};
use crate::rule::Rule;
use crate::tree::{SyntaxTree, lemma_node_span};

verus! {

/// Reports regular expression literals that the parser marks as erroneous.
#[derive(Clone, Copy, Debug)]
pub struct NoInvalidRegexp;

impl Rule for NoInvalidRegexp {
    open spec fn spec_name(&self) -> Seq<char> {
        "no-invalid-regexp"@
    }

    open spec fn spec_severity(&self) -> Severity {
        Severity::Error
    }

    open spec fn spec_reports(&self, t: &SyntaxTree, n: int) -> Seq<ReportView> {
        if t.kind_is(n, "regex") && t.node(n).has_error {
            seq![plain(t.start(n), t.end(n), "Invalid regular expression."@)]
        } else {
            Seq::empty()
        }
    }

    proof fn lemma_reports_within(&self, t: &SyntaxTree, n: int) {
        lemma_node_span(t, n);
    }

    fn name(&self) -> &'static str {
        "no-invalid-regexp"
    }

    fn default_severity(&self) -> Severity {
        Severity::Error
    }

    fn on_node(&self, t: &SyntaxTree, node: usize, ctx: &mut RuleContext) {
        if t.has_kind(node, "regex") && t.nodes[node].has_error {
            ctx.report(t.start_byte(node), t.end_byte(node), "Invalid regular expression.");
        }
    }
}

} // verus!

use vstd::prelude::*;
use crate::diagnostic::{plain, ReportView, RuleContext, Severity};
use crate::rule::Rule;
use crate::tree::{SyntaxTree, lemma_node_span};

verus! {

/// Requires function expressions to have a name.
#[derive(Clone, Copy, Debug)]
pub struct FuncNames;

impl Rule for FuncNames {
    open spec fn spec_name(&self) -> Seq<char> {
        "func-names"@
    }

    open spec fn spec_severity(&self) -> Severity {
        Severity::Warning
    }

    open spec fn spec_reports(&self, t: &SyntaxTree, n: int) -> Seq<ReportView> {
        if t.kind_is(n, "function_expression") && t.field(n, "name") is None {
            seq![plain(t.start(n), t.end(n), "Unexpected unnamed function."@)]
        } else {
            Seq::empty()
        }
    }

    proof fn lemma_reports_within(&self, t: &SyntaxTree, n: int) {
        lemma_node_span(t, n);
    }

    fn name(&self) -> &'static str {
        "func-names"
    }

    fn default_severity(&self) -> Severity {
        Severity::Warning
    }

    fn on_node(&self, t: &SyntaxTree, node: usize, ctx: &mut RuleContext) {
        if t.has_kind(node, "function_expression") && t.child_by_field_name(node, "name").is_none() {
            ctx.report(t.start_byte(node), t.end_byte(node), "Unexpected unnamed function.");
        }
    }
}

} // verus!

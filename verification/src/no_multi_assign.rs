use vstd::prelude::*;
use crate::diagnostic::{plain, ReportView, RuleContext, Severity};
use crate::rule::Rule;
use crate::tree::{SyntaxTree, lemma_node_span};

verus! {

/// Disallows chained assignments such as `a = b = c`.
#[derive(Clone, Copy, Debug)]
pub struct NoMultiAssign;

impl Rule for NoMultiAssign {
    open spec fn spec_name(&self) -> Seq<char> {
        "no-multi-assign"@
    }

    open spec fn spec_severity(&self) -> Severity {
        Severity::Warning
    }

    open spec fn spec_reports(&self, t: &SyntaxTree, n: int) -> Seq<ReportView> {
        if t.kind_is(n, "assignment_expression") && (match t.field(n, "right") {
            Some(r) => t.kind_is(r as int, "assignment_expression"),
            None => false,
        }) {
            seq![plain(t.start(n), t.end(n), "Unexpected chained assignment."@)]
        } else {
            Seq::empty()
        }
    }

    proof fn lemma_reports_within(&self, t: &SyntaxTree, n: int) {
        lemma_node_span(t, n);
    }

    fn name(&self) -> &'static str {
        "no-multi-assign"
    }

    fn default_severity(&self) -> Severity {
        Severity::Warning
    }

    fn on_node(&self, t: &SyntaxTree, node: usize, ctx: &mut RuleContext) {
        if t.has_kind(node, "assignment_expression") {
            if let Some(right) = t.child_by_field_name(node, "right") {
                if t.has_kind(right, "assignment_expression") {
                    ctx.report(t.start_byte(node), t.end_byte(node), "Unexpected chained assignment.");
                }
            }
        }
    }
}

} // verus!

use vstd::prelude::*;
use crate::diagnostic::{plain, ReportView, RuleContext, Severity};
use crate::rule::Rule;
use crate::tree::{SyntaxTree, lemma_node_span};

verus! {

/// Disallows empty destructuring patterns.
#[derive(Clone, Copy, Debug)]
pub struct NoEmptyPattern;

impl Rule for NoEmptyPattern {
    open spec fn spec_name(&self) -> Seq<char> {
        "no-empty-pattern"@
    }

    open spec fn spec_severity(&self) -> Severity {
        Severity::Error
    }

    open spec fn spec_reports(&self, t: &SyntaxTree, n: int) -> Seq<ReportView> {
        if t.kind_is(n, "object_pattern") && t.named_child_count(n) == 0 {
            seq![plain(t.start(n), t.end(n), "Unexpected empty object pattern."@)]
        } else if t.kind_is(n, "array_pattern") && t.named_child_count(n) == 0 {
            seq![plain(t.start(n), t.end(n), "Unexpected empty array pattern."@)]
        } else {
            Seq::empty()
        }
    }

    proof fn lemma_reports_within(&self, t: &SyntaxTree, n: int) {
        lemma_node_span(t, n);
    }

    fn name(&self) -> &'static str {
        "no-empty-pattern"
    }

    fn default_severity(&self) -> Severity {
        Severity::Error
    }

    fn on_node(&self, t: &SyntaxTree, node: usize, ctx: &mut RuleContext) {
        if t.has_kind(node, "object_pattern") || t.has_kind(node, "array_pattern") {
            if t.count_named(node) == 0 {
                if t.has_kind(node, "object_pattern") {
                    ctx.report(t.start_byte(node), t.end_byte(node), "Unexpected empty object pattern.");
                } else {
                    ctx.report(t.start_byte(node), t.end_byte(node), "Unexpected empty array pattern.");
                }
            }
        }
    }
}

} // verus!

use vstd::prelude::*;
use crate::diagnostic::{plain, ReportView, RuleContext, Severity};
use crate::rule::Rule;
use crate::tree::{SyntaxTree, lemma_node_span};

verus! {

/// Disallows `new` expressions whose value is thrown away.
#[derive(Clone, Copy, Debug)]
pub struct NoNew;

impl Rule for NoNew {
    open spec fn spec_name(&self) -> Seq<char> {
        "no-new"@
    }

    open spec fn spec_severity(&self) -> Severity {
        Severity::Warning
    }

    open spec fn spec_reports(&self, t: &SyntaxTree, n: int) -> Seq<ReportView> {
        if t.kind_is(n, "new_expression") && (match t.parent(n) {
            Some(p) => t.kind_is(p as int, "expression_statement"),
            None => false,
        }) {
            seq![plain(t.start(n), t.end(n), "Do not use 'new' for side effects."@)]
        } else {
            Seq::empty()
        }
    }

    proof fn lemma_reports_within(&self, t: &SyntaxTree, n: int) {
        lemma_node_span(t, n);
    }

    fn name(&self) -> &'static str {
        "no-new"
    }

    fn default_severity(&self) -> Severity {
        Severity::Warning
    }

    fn on_node(&self, t: &SyntaxTree, node: usize, ctx: &mut RuleContext) {
        if t.has_kind(node, "new_expression") {
            if let Some(parent) = t.parent_of(node) {
                if t.has_kind(parent, "expression_statement") {
                    ctx.report(t.start_byte(node), t.end_byte(node), "Do not use 'new' for side effects.");
                }
            }
        }
    }
}

} // verus!

use vstd::prelude::*;
use crate::diagnostic::{plain, ReportView, RuleContext, Severity};
use crate::rule::Rule;
use crate::tree::{SyntaxTree, lemma_node_span};

verus! {

/// Disallows building paths by adding to `__dirname` or `__filename`.
#[derive(Clone, Copy, Debug)]
pub struct NoPathConcat;

impl Rule for NoPathConcat {
    open spec fn spec_name(&self) -> Seq<char> {
        "no-path-concat"@
    }

    open spec fn spec_severity(&self) -> Severity {
        Severity::Warning
    }

    open spec fn spec_reports(&self, t: &SyntaxTree, n: int) -> Seq<ReportView> {
        let flagged = match (t.field(n, "operator"), t.field(n, "left")) {
            (Some(op), Some(l)) => t.text_is(op as int, "+") && (t.text_is(l as int, "__dirname")
                || t.text_is(l as int, "__filename")),
            _ => false,
        };
        if t.kind_is(n, "binary_expression") && flagged {
            seq![
                plain(
                    t.start(n),
                    t.end(n),
                    "Use path.join() or path.resolve() instead of string concatenation."@,
                ),
            ]
        } else {
            Seq::empty()
        }
    }

    proof fn lemma_reports_within(&self, t: &SyntaxTree, n: int) {
        lemma_node_span(t, n);
    }

    fn name(&self) -> &'static str {
        "no-path-concat"
    }

    fn default_severity(&self) -> Severity {
        Severity::Warning
    }

    fn on_node(&self, t: &SyntaxTree, node: usize, ctx: &mut RuleContext) {
        if !t.has_kind(node, "binary_expression") {
            return;
        }
        let op = match t.child_by_field_name(node, "operator") {
            Some(o) => o,
            None => return,
        };
        if !t.text_equals(op, "+") {
            return;
        }
        let left = match t.child_by_field_name(node, "left") {
            Some(l) => l,
            None => return,
        };
        if t.text_equals(left, "__dirname") || t.text_equals(left, "__filename") {
            ctx.report(
                t.start_byte(node),
                t.end_byte(node),
                "Use path.join() or path.resolve() instead of string concatenation.",
            );
        }
    }
}

} // verus!

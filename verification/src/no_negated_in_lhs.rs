use vstd::prelude::*;
use crate::diagnostic::{plain, ReportView, RuleContext, Severity};
use crate::rule::Rule;
use crate::tree::{SyntaxTree, lemma_node_span};

verus! {

/// Disallows negating the left operand of `in`, as in `!a in b`.
#[derive(Clone, Copy, Debug)]
pub struct NoNegatedInLhs;

impl Rule for NoNegatedInLhs {
    open spec fn spec_name(&self) -> Seq<char> {
        "no-negated-in-lhs"@
    }

    open spec fn spec_severity(&self) -> Severity {
        Severity::Error
    }

    open spec fn spec_reports(&self, t: &SyntaxTree, n: int) -> Seq<ReportView> {
        let flagged = match (t.field(n, "operator"), t.field(n, "left")) {
            (Some(op), Some(l)) => t.text_is(op as int, "in") && t.kind_is(l as int, "unary_expression")
                && match t.field(l as int, "operator") {
                Some(u) => t.text_is(u as int, "!"),
                None => false,
            },
            _ => false,
        };
        if t.kind_is(n, "binary_expression") && flagged {
            seq![
                plain(
                    t.start(n),
                    t.end(n),
                    "Negating the left operand in 'in' expressions is potentially confusing."@,
                ),
            ]
        } else {
            Seq::empty()
        }
    }

    proof fn lemma_reports_within(&self, t: &SyntaxTree, n: int) {
        lemma_node_span(t, n);
    }

    fn name(&self) -> &'static str {
        "no-negated-in-lhs"
    }

    fn default_severity(&self) -> Severity {
        Severity::Error
    }

    fn on_node(&self, t: &SyntaxTree, node: usize, ctx: &mut RuleContext) {
        if !t.has_kind(node, "binary_expression") {
            return;
        }
        let op = match t.child_by_field_name(node, "operator") {
            Some(o) => o,
            None => return,
        };
        if !t.text_equals(op, "in") {
            return;
        }
        let left = match t.child_by_field_name(node, "left") {
            Some(l) => l,
            None => return,
        };
        if t.has_kind(left, "unary_expression") {
            if let Some(uop) = t.child_by_field_name(left, "operator") {
                if t.text_equals(uop, "!") {
                    ctx.report(
                        t.start_byte(node),
                        t.end_byte(node),
                        "Negating the left operand in 'in' expressions is potentially confusing.",
                    );
                }
            }
        }
    }
}

} // verus!

use vstd::prelude::*;
use crate::diagnostic::{plain, ReportView, RuleContext, Severity};
use crate::rule::Rule;
use crate::tree::{SyntaxTree, lemma_node_span};

verus! {

/// Disallows a negated condition in an `if` statement that has an `else`
/// branch.
#[derive(Clone, Copy, Debug)]
pub struct NoNegatedCondition;

impl Rule for NoNegatedCondition {
    open spec fn spec_name(&self) -> Seq<char> {
        "no-negated-condition"@
    }

    open spec fn spec_severity(&self) -> Severity {
        Severity::Warning
    }

    open spec fn spec_reports(&self, t: &SyntaxTree, n: int) -> Seq<ReportView> {
        let negated = match t.field(n, "condition") {
            Some(c) => {
                let inner = if t.kind_is(c as int, "parenthesized_expression") {
                    match t.named_child(c as int, 0) {
                        Some(i) => i,
                        None => c,
                    }
                } else {
                    c
                };
                t.kind_is(inner as int, "unary_expression") && match t.field(inner as int, "operator") {
                    Some(op) => t.text_is(op as int, "!"),
                    None => false,
                }
            },
            None => false,
        };
        if t.kind_is(n, "if_statement") && t.field(n, "alternative") is Some && negated {
            seq![plain(t.start(n), t.end(n), "Unexpected negated condition."@)]
        } else {
            Seq::empty()
        }
    }

    proof fn lemma_reports_within(&self, t: &SyntaxTree, n: int) {
        lemma_node_span(t, n);
    }

    fn name(&self) -> &'static str {
        "no-negated-condition"
    }

    fn default_severity(&self) -> Severity {
        Severity::Warning
    }

    fn on_node(&self, t: &SyntaxTree, node: usize, ctx: &mut RuleContext) {
        if !t.has_kind(node, "if_statement") {
            return;
        }
        if t.child_by_field_name(node, "alternative").is_none() {
            return;
        }
        let cond = match t.child_by_field_name(node, "condition") {
            Some(c) => c,
            None => return,
        };
        let inner = if t.has_kind(cond, "parenthesized_expression") {
            match t.named_child_at(cond, 0) {
                Some(i) => i,
                None => cond,
            }
        } else {
            cond
        };
        if t.has_kind(inner, "unary_expression") {
            if let Some(op) = t.child_by_field_name(inner, "operator") {
                if t.text_equals(op, "!") {
                    ctx.report(t.start_byte(node), t.end_byte(node), "Unexpected negated condition.");
                }
            }
        }
    }
}

} // verus!

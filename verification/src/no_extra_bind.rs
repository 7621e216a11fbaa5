use vstd::prelude::*;
use crate::diagnostic::{plain, ReportView, RuleContext, Severity};
use crate::rule::Rule;
use crate::tree::{SyntaxTree, lemma_node_span};

verus! {

/// Disallows `.bind()` on arrow functions, which ignore it.
#[derive(Clone, Copy, Debug)]
pub struct NoExtraBind;

impl Rule for NoExtraBind {
    open spec fn spec_name(&self) -> Seq<char> {
        "no-extra-bind"@
    }

    open spec fn spec_severity(&self) -> Severity {
        Severity::Warning
    }

    open spec fn spec_reports(&self, t: &SyntaxTree, n: int) -> Seq<ReportView> {
        let on_arrow = match t.field(n, "function") {
            Some(f) => t.kind_is(f as int, "member_expression") && match (
                t.field(f as int, "property"),
                t.field(f as int, "object"),
            ) {
                (Some(p), Some(o)) => t.text_is(p as int, "bind") && match (
                if t.kind_is(o as int, "parenthesized_expression") {
                    t.named_child(o as int, 0)
                } else {
                    Some(o)
                }) {
                    Some(i) => t.kind_is(i as int, "arrow_function"),
                    None => false,
                },
                _ => false,
            },
            None => false,
        };
        if t.kind_is(n, "call_expression") && on_arrow {
            seq![plain(t.start(n), t.end(n), "Unnecessary use of .bind() with arrow function."@)]
        } else {
            Seq::empty()
        }
    }

    proof fn lemma_reports_within(&self, t: &SyntaxTree, n: int) {
        lemma_node_span(t, n);
    }

    fn name(&self) -> &'static str {
        "no-extra-bind"
    }

    fn default_severity(&self) -> Severity {
        Severity::Warning
    }

    fn on_node(&self, t: &SyntaxTree, node: usize, ctx: &mut RuleContext) {
        if !t.has_kind(node, "call_expression") {
            return;
        }
        let func = match t.child_by_field_name(node, "function") {
            Some(f) => f,
            None => return,
        };
        if !t.has_kind(func, "member_expression") {
            return;
        }
        let prop = match t.child_by_field_name(func, "property") {
            Some(p) => p,
            None => return,
        };
        if !t.text_equals(prop, "bind") {
            return;
        }
        let obj = match t.child_by_field_name(func, "object") {
            Some(o) => o,
            None => return,
        };
        let inner = if t.has_kind(obj, "parenthesized_expression") {
            t.named_child_at(obj, 0)
        } else {
            Some(obj)
        };
        let is_arrow = match inner {
            Some(i) => t.has_kind(i, "arrow_function"),
            None => false,
        };
        if is_arrow {
            ctx.report(
                t.start_byte(node),
                t.end_byte(node),
                "Unnecessary use of .bind() with arrow function.",
            );
        }
    }
}

} // verus!

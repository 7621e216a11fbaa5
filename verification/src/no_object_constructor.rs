use vstd::prelude::*;
use crate::diagnostic::{plain, ReportView, RuleContext, Severity};
use crate::rule::Rule;
use crate::tree::{SyntaxTree, lemma_node_span};

verus! {

/// Disallows calling `Object` without arguments.
#[derive(Clone, Copy, Debug)]
pub struct NoObjectConstructor;

impl Rule for NoObjectConstructor {
    open spec fn spec_name(&self) -> Seq<char> {
        "no-object-constructor"@
    }

    open spec fn spec_severity(&self) -> Severity {
        Severity::Warning
    }

    open spec fn spec_reports(&self, t: &SyntaxTree, n: int) -> Seq<ReportView> {
        let called = t.kind_is(n, "call_expression") && (match t.field(n, "function") {
            Some(f) => t.kind_is(f as int, "identifier") && t.text_is(f as int, "Object"),
            None => false,
        });
        let has_args = match t.field(n, "arguments") {
            Some(a) => t.named_child_count(a as int) > 0,
            None => false,
        };
        if called && !has_args {
            seq![
                plain(
                    t.start(n),
                    t.end(n),
                    "Disallow calls to the Object constructor without an argument."@,
                ),
            ]
        } else {
            Seq::empty()
        }
    }

    proof fn lemma_reports_within(&self, t: &SyntaxTree, n: int) {
        lemma_node_span(t, n);
    }

    fn name(&self) -> &'static str {
        "no-object-constructor"
    }

    fn default_severity(&self) -> Severity {
        Severity::Warning
    }

    fn on_node(&self, t: &SyntaxTree, node: usize, ctx: &mut RuleContext) {
        if t.has_kind(node, "call_expression") {
            if let Some(func) = t.child_by_field_name(node, "function") {
                if t.has_kind(func, "identifier") && t.text_equals(func, "Object") {
                    if let Some(args) = t.child_by_field_name(node, "arguments") {
                        if t.count_named(args) > 0 {
                            return;
                        }
                    }
                    ctx.report(
                        t.start_byte(node),
                        t.end_byte(node),
                        "Disallow calls to the Object constructor without an argument.",
                    );
                }
            }
        }
    }
}

} // verus!

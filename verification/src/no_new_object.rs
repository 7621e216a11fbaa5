use vstd::prelude::*;
use crate::diagnostic::{plain, ReportView, RuleContext, Severity};
use crate::rule::Rule;
use crate::tree::{SyntaxTree, lemma_node_span};

verus! {

/// Disallows `new Object`.
#[derive(Clone, Copy, Debug)]
pub struct NoNewObject;

impl Rule for NoNewObject {
    open spec fn spec_name(&self) -> Seq<char> {
        "no-new-object"@
    }

    open spec fn spec_severity(&self) -> Severity {
        Severity::Warning
    }

    open spec fn spec_reports(&self, t: &SyntaxTree, n: int) -> Seq<ReportView> {
        if t.kind_is(n, "new_expression") && (match t.field(n, "constructor") {
            Some(c) => t.text_is(c as int, "Object"),
            None => false,
        }) {
            seq![plain(t.start(n), t.end(n), "The object literal notation {} is preferable."@)]
        } else {
            Seq::empty()
        }
    }

    proof fn lemma_reports_within(&self, t: &SyntaxTree, n: int) {
        lemma_node_span(t, n);
    }

    fn name(&self) -> &'static str {
        "no-new-object"
    }

    fn default_severity(&self) -> Severity {
        Severity::Warning
    }

    fn on_node(&self, t: &SyntaxTree, node: usize, ctx: &mut RuleContext) {
        if t.has_kind(node, "new_expression") {
            if let Some(constructor) = t.child_by_field_name(node, "constructor") {
                if t.text_equals(constructor, "Object") {
                    ctx.report(
                        t.start_byte(node),
                        t.end_byte(node),
                        "The object literal notation {} is preferable.",
                    );
                }
            }
        }
    }
}

} // verus!

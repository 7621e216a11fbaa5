use vstd::prelude::*;
use crate::diagnostic::{plain, ReportView, RuleContext, Severity};
use crate::rule::Rule;
use crate::tree::{SyntaxTree, lemma_node_span};

verus! {

/// Disallows the deprecated `Buffer` constructor, with or without `new`.
#[derive(Clone, Copy, Debug)]
pub struct NoBufferConstructor;

impl Rule for NoBufferConstructor {
    open spec fn spec_name(&self) -> Seq<char> {
        "no-buffer-constructor"@
    }

    open spec fn spec_severity(&self) -> Severity {
        Severity::Error
    }

    open spec fn spec_reports(&self, t: &SyntaxTree, n: int) -> Seq<ReportView> {
        let is_buffer = if t.kind_is(n, "new_expression") {
            match t.field(n, "constructor") {
                Some(c) => t.text_is(c as int, "Buffer"),
                None => false,
            }
        } else if t.kind_is(n, "call_expression") {
            match t.field(n, "function") {
                Some(f) => t.kind_is(f as int, "identifier") && t.text_is(f as int, "Buffer"),
                None => false,
            }
        } else {
            false
        };
        if is_buffer {
            seq![plain(t.start(n), t.end(n), "Use Buffer.alloc() or Buffer.from() instead."@)]
        } else {
            Seq::empty()
        }
    }

    proof fn lemma_reports_within(&self, t: &SyntaxTree, n: int) {
        lemma_node_span(t, n);
    }

    fn name(&self) -> &'static str {
        "no-buffer-constructor"
    }

    fn default_severity(&self) -> Severity {
        Severity::Error
    }

    fn on_node(&self, t: &SyntaxTree, node: usize, ctx: &mut RuleContext) {
        let is_buffer = if t.has_kind(node, "new_expression") {
            match t.child_by_field_name(node, "constructor") {
                Some(c) => t.text_equals(c, "Buffer"),
                None => false,
            }
        } else if t.has_kind(node, "call_expression") {
            match t.child_by_field_name(node, "function") {
                Some(f) => t.has_kind(f, "identifier") && t.text_equals(f, "Buffer"),
                None => false,
            }
        } else {
            false
        };
        if is_buffer {
            ctx.report(t.start_byte(node), t.end_byte(node), "Use Buffer.alloc() or Buffer.from() instead.");
        }
    }
}

} // verus!

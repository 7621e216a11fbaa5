use vstd::prelude::*;
use crate::helpers::lemma_named_child_bounds;
use crate::tree::lemma_field_valid;
use crate::diagnostic::{plain, ReportView, RuleContext, Severity};
use vstd::string::StringSliceAdditionalSpecFns;
use crate::text::{bytes_start_with, starts_with_seq};
use crate::rule::Rule;
use crate::tree::{SyntaxTree, lemma_node_span};

verus! {

/// Disallows an async function as the executor of `new Promise`.
#[derive(Clone, Copy, Debug)]
pub struct NoAsyncPromiseExecutor;

impl Rule for NoAsyncPromiseExecutor {
    open spec fn spec_name(&self) -> Seq<char> {
        "no-async-promise-executor"@
    }

    open spec fn spec_severity(&self) -> Severity {
        Severity::Error
    }

    open spec fn spec_reports(&self, t: &SyntaxTree, n: int) -> Seq<ReportView> {
        if !t.kind_is(n, "new_expression") {
            Seq::empty()
        } else {
            match (t.field(n, "constructor"), t.field(n, "arguments")) {
                (Some(c), Some(a)) if t.text_is(c as int, "Promise") => match t.named_child(a as int, 0) {
                    Some(f) if starts_with_seq(t.text(f as int), "async".spec_bytes()) => seq![
                        plain(
                            t.start(f as int),
                            t.end(f as int),
                            "Promise executor functions should not be async."@,
                        ),
                    ],
                    _ => Seq::empty(),
                },
                _ => Seq::empty(),
            }
        }
    }

    proof fn lemma_reports_within(&self, t: &SyntaxTree, n: int) {
        lemma_field_valid(t, n, "arguments"@, 0);
        if let Some(a) = t.field(n, "arguments") {
            lemma_named_child_bounds(t, a as int, 0);
            if let Some(f) = t.named_child(a as int, 0) {
                lemma_node_span(t, f as int);
            }
        }
    }

    fn name(&self) -> &'static str {
        "no-async-promise-executor"
    }

    fn default_severity(&self) -> Severity {
        Severity::Error
    }

    fn on_node(&self, t: &SyntaxTree, node: usize, ctx: &mut RuleContext) {
        if !t.has_kind(node, "new_expression") {
            return;
        }
        let constructor = match t.child_by_field_name(node, "constructor") {
            Some(c) => c,
            None => return,
        };
        if !t.text_equals(constructor, "Promise") {
            return;
        }
        let args = match t.child_by_field_name(node, "arguments") {
            Some(a) => a,
            None => return,
        };
        if let Some(first_arg) = t.named_child_at(args, 0) {
            if bytes_start_with(t.node_text(first_arg), "async".as_bytes()) {
                ctx.report(
                    t.start_byte(first_arg),
                    t.end_byte(first_arg),
                    "Promise executor functions should not be async.",
                );
            }
        }
    }
}

} // verus!

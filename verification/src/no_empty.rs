use vstd::prelude::*;
use crate::diagnostic::{plain, ReportView, RuleContext, Severity};
use vstd::string::StringExecFns;
use vstd::string::StringSliceAdditionalSpecFns;
use crate::helpers::{function_or_generator, is_function_or_generator};
use crate::text::{bytes_contain, contains_seq};
use crate::rule::Rule;
use crate::tree::{SyntaxTree, lemma_node_span};

verus! {

/// Disallows empty blocks and empty `switch` statements. The bodies of
/// functions are exempt, and so is a block or switch body that holds a comment.
#[derive(Clone, Copy, Debug)]
pub struct NoEmpty;

impl Rule for NoEmpty {
    open spec fn spec_name(&self) -> Seq<char> {
        "no-empty"@
    }

    open spec fn spec_severity(&self) -> Severity {
        Severity::Error
    }

    open spec fn spec_reports(&self, t: &SyntaxTree, n: int) -> Seq<ReportView> {
        if t.kind_is(n, "statement_block") {
            let in_function = match t.parent(n) {
                Some(p) => function_or_generator(t, p as int),
                None => false,
            };
            if t.named_child_count(n) != 0 || in_function || has_comment_marker(t.text(n)) {
                Seq::empty()
            } else {
                seq![plain(t.start(n), t.end(n), "Empty block statement."@)]
            }
        } else if t.kind_is(n, "switch_statement") {
            match t.field(n, "body") {
                Some(b) if t.named_child_count(b as int) == 0 && !has_comment_marker(t.text(b as int)) => seq![
                    plain(t.start(n), t.end(n), "Empty switch statement."@),
                ],
                _ => Seq::empty(),
            }
        } else {
            Seq::empty()
        }
    }

    proof fn lemma_reports_within(&self, t: &SyntaxTree, n: int) {
        lemma_node_span(t, n);
    }

    fn name(&self) -> &'static str {
        "no-empty"
    }

    fn default_severity(&self) -> Severity {
        Severity::Error
    }

    fn on_node(&self, t: &SyntaxTree, node: usize, ctx: &mut RuleContext) {
        if t.has_kind(node, "statement_block") {
            if t.count_named(node) == 0 {
                if let Some(parent) = t.parent_of(node) {
                    if is_function_or_generator(t, parent) {
                        return;
                    }
                }
                if holds_comment_marker(t.node_text(node)) {
                    return;
                }
                ctx.report(t.start_byte(node), t.end_byte(node), "Empty block statement.");
            }
        } else if t.has_kind(node, "switch_statement") {
            if let Some(body) = t.child_by_field_name(node, "body") {
                if t.count_named(body) == 0 {
                    if holds_comment_marker(t.node_text(body)) {
                        return;
                    }
                    ctx.report(t.start_byte(node), t.end_byte(node), "Empty switch statement.");
                }
            }
        }
    }
}

/// Text that holds `//` or `/*`.
pub open spec fn has_comment_marker(s: Seq<u8>) -> bool {
    contains_seq(s, "//".spec_bytes()) || contains_seq(s, "/*".spec_bytes())
}

fn holds_comment_marker(s: &[u8]) -> (r: bool)
    ensures
        r == has_comment_marker(s@),
{
    bytes_contain(s, "//".as_bytes()) || bytes_contain(s, "/*".as_bytes())
}

} // verus!

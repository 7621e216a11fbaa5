use vstd::prelude::*;
use crate::diagnostic::{plain, ReportView, RuleContext, Severity};
use crate::rule::Rule;
use crate::tree::{SyntaxTree, lemma_node_span};

verus! {

/// Requires the body of a `for-in` loop to be, or to begin with, an `if`
/// statement.
#[derive(Clone, Copy, Debug)]
pub struct GuardForIn;

impl Rule for GuardForIn {
    open spec fn spec_name(&self) -> Seq<char> {
        "guard-for-in"@
    }

    open spec fn spec_severity(&self) -> Severity {
        Severity::Warning
    }

    open spec fn spec_reports(&self, t: &SyntaxTree, n: int) -> Seq<ReportView> {
        let guarded = match t.field(n, "body") {
            Some(b) => if t.kind_is(b as int, "statement_block") {
                match t.named_child(b as int, 0) {
                    Some(s) => t.kind_is(s as int, "if_statement"),
                    None => false,
                }
            } else {
                t.kind_is(b as int, "if_statement")
            },
            None => true,
        };
        if t.kind_is(n, "for_in_statement") && !guarded {
            seq![
                plain(
                    t.start(n),
                    t.end(n),
                    "The body of a for-in should be wrapped in an if statement to filter unwanted properties from the prototype."@,
                ),
            ]
        } else {
            Seq::empty()
        }
    }

    proof fn lemma_reports_within(&self, t: &SyntaxTree, n: int) {
        lemma_node_span(t, n);
    }

    fn name(&self) -> &'static str {
        "guard-for-in"
    }

    fn default_severity(&self) -> Severity {
        Severity::Warning
    }

    fn on_node(&self, t: &SyntaxTree, node: usize, ctx: &mut RuleContext) {
        if !t.has_kind(node, "for_in_statement") {
            return;
        }
        if let Some(body) = t.child_by_field_name(node, "body") {
            if t.has_kind(body, "statement_block") {
                if let Some(stmt) = t.named_child_at(body, 0) {
                    if t.has_kind(stmt, "if_statement") {
                        return;
                    }
                }
            } else if t.has_kind(body, "if_statement") {
                return;
            }
            ctx.report(
                t.start_byte(node),
                t.end_byte(node),
                "The body of a for-in should be wrapped in an if statement to filter unwanted properties from the prototype.",
            );
        }
    }
}

} // verus!

use vstd::prelude::*;
use crate::diagnostic::{plain, ReportView, RuleContext, Severity};
use crate::rule::Rule;
use crate::tree::{SyntaxTree, lemma_node_span};

verus! {

/// Disallows an `if` that is the only statement of an `else` block.
#[derive(Clone, Copy, Debug)]
pub struct NoLonelyIf;

impl Rule for NoLonelyIf {
    open spec fn spec_name(&self) -> Seq<char> {
        "no-lonely-if"@
    }

    open spec fn spec_severity(&self) -> Severity {
        Severity::Warning
    }

    open spec fn spec_reports(&self, t: &SyntaxTree, n: int) -> Seq<ReportView> {
        let lonely = match t.parent(n) {
            Some(p) => t.kind_is(p as int, "statement_block") && t.named_child_count(p as int) == 1
                && (match t.parent(p as int) {
                Some(g) => t.kind_is(g as int, "else_clause"),
                None => false,
            }),
            None => false,
        };
        if t.kind_is(n, "if_statement") && lonely {
            seq![plain(t.start(n), t.end(n), "Unexpected if as the only statement in an else block."@)]
        } else {
            Seq::empty()
        }
    }

    proof fn lemma_reports_within(&self, t: &SyntaxTree, n: int) {
        lemma_node_span(t, n);
    }

    fn name(&self) -> &'static str {
        "no-lonely-if"
    }

    fn default_severity(&self) -> Severity {
        Severity::Warning
    }

    fn on_node(&self, t: &SyntaxTree, node: usize, ctx: &mut RuleContext) {
        if !t.has_kind(node, "if_statement") {
            return;
        }
        if let Some(parent) = t.parent_of(node) {
            if t.has_kind(parent, "statement_block") && t.count_named(parent) == 1 {
                if let Some(grandparent) = t.parent_of(parent) {
                    if t.has_kind(grandparent, "else_clause") {
                        ctx.report(
                            t.start_byte(node),
                            t.end_byte(node),
                            "Unexpected if as the only statement in an else block.",
                        );
                    }
                }
            }
        }
    }
}

} // verus!

use vstd::prelude::*;
use crate::diagnostic::{plain, ReportView, RuleContext, Severity};
use crate::helpers::{function_or_generator, is_function_or_generator};
use crate::rule::Rule;
use crate::tree::{SyntaxTree, lemma_node_span};

verus! {

/// Disallows functions whose body is an empty block.
#[derive(Clone, Copy, Debug)]
pub struct NoEmptyFunction;

impl Rule for NoEmptyFunction {
    open spec fn spec_name(&self) -> Seq<char> {
        "no-empty-function"@
    }

    open spec fn spec_severity(&self) -> Severity {
        Severity::Warning
    }

    open spec fn spec_reports(&self, t: &SyntaxTree, n: int) -> Seq<ReportView> {
        match t.field(n, "body") {
            Some(b) if function_or_generator(t, n) && t.kind_is(b as int, "statement_block")
                && t.named_child_count(b as int) == 0 => seq![
                plain(t.start(n), t.end(n), "Unexpected empty function."@),
            ],
            _ => Seq::empty(),
        }
    }

    proof fn lemma_reports_within(&self, t: &SyntaxTree, n: int) {
        lemma_node_span(t, n);
    }

    fn name(&self) -> &'static str {
        "no-empty-function"
    }

    fn default_severity(&self) -> Severity {
        Severity::Warning
    }

    fn on_node(&self, t: &SyntaxTree, node: usize, ctx: &mut RuleContext) {
        if !is_function_or_generator(t, node) {
            return;
        }
        let body = match t.child_by_field_name(node, "body") {
            Some(b) => b,
            None => return,
        };
        if t.has_kind(body, "statement_block") && t.count_named(body) == 0 {
            ctx.report(t.start_byte(node), t.end_byte(node), "Unexpected empty function.");
        }
    }
}

} // verus!

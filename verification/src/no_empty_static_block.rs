use vstd::prelude::*;
use crate::diagnostic::{plain, ReportView, RuleContext, Severity};
use crate::rule::Rule;
use crate::tree::{SyntaxTree, lemma_node_span};

verus! {

/// Disallows empty `static` blocks in classes.
#[derive(Clone, Copy, Debug)]
pub struct NoEmptyStaticBlock;

impl Rule for NoEmptyStaticBlock {
    open spec fn spec_name(&self) -> Seq<char> {
        "no-empty-static-block"@
    }

    open spec fn spec_severity(&self) -> Severity {
        Severity::Error
    }

    open spec fn spec_reports(&self, t: &SyntaxTree, n: int) -> Seq<ReportView> {
        let empty = match t.field(n, "body") {
            Some(b) => t.named_child_count(b as int) == 0,
            None => exists|i: int|
                0 <= i < t.named_children(n).len() && empty_block(t, #[trigger] t.named_children(n)[i] as int),
        };
        if t.kind_is(n, "class_static_block") && empty {
            seq![plain(t.start(n), t.end(n), "Unexpected empty static block."@)]
        } else {
            Seq::empty()
        }
    }

    proof fn lemma_reports_within(&self, t: &SyntaxTree, n: int) {
        lemma_node_span(t, n);
    }

    fn name(&self) -> &'static str {
        "no-empty-static-block"
    }

    fn default_severity(&self) -> Severity {
        Severity::Error
    }

    fn on_node(&self, t: &SyntaxTree, node: usize, ctx: &mut RuleContext) {
        if !t.has_kind(node, "class_static_block") {
            return;
        }
        if let Some(body) = t.child_by_field_name(node, "body") {
            if t.count_named(body) == 0 {
                ctx.report(t.start_byte(node), t.end_byte(node), "Unexpected empty static block.");
            }
        } else {
            let children = t.named_children_of(node);
            let ghost before = ctx@;
            let mut i: usize = 0;
            while i < children.len()
                invariant
                    t.wf(),
                    children@ == t.named_children(node as int),
                    forall|j: int| 0 <= j < children@.len() ==> node < #[trigger] children@[j] < t.len(),
                    0 <= i <= children@.len(),
                    forall|j: int| 0 <= j < i ==> !empty_block(t, #[trigger] children@[j] as int),
                ctx@ == before,
                before == old(ctx)@,
                t.field(node as int, "body") is None,
                t.kind_is(node as int, "class_static_block"),
                decreases children.len() - i,
            {
                let child = children[i];
                if t.has_kind(child, "statement_block") && t.count_named(child) == 0 {
                    ctx.report(t.start_byte(node), t.end_byte(node), "Unexpected empty static block.");
                    return;
                }
                i = i + 1;
            }
        }
    }
}

/// An empty statement block.
pub open spec fn empty_block(t: &SyntaxTree, c: int) -> bool {
    t.kind_is(c, "statement_block") && t.named_child_count(c) == 0
}

} // verus!

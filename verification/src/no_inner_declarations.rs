use vstd::prelude::*;
use crate::diagnostic::{plain, ReportView, RuleContext, Severity};
use crate::helpers::{function_like, is_function_like};
use crate::rule::Rule;
use crate::tree::{SyntaxTree, lemma_node_span};

verus! {

/// Disallows function declarations that stand elsewhere than at the top
/// level of the program or of a function body.
#[derive(Clone, Copy, Debug)]
pub struct NoInnerDeclarations;

impl Rule for NoInnerDeclarations {
    open spec fn spec_name(&self) -> Seq<char> {
        "no-inner-declarations"@
    }

    open spec fn spec_severity(&self) -> Severity {
        Severity::Error
    }

    open spec fn spec_reports(&self, t: &SyntaxTree, n: int) -> Seq<ReportView> {
        let allowed = match t.parent(n) {
            Some(p) => t.kind_is(p as int, "program") || t.kind_is(p as int, "export_statement") || (
            t.kind_is(p as int, "statement_block") && match t.parent(p as int) {
                Some(g) => function_like(t, g as int) || t.kind_is(g as int, "program"),
                None => false,
            }),
            None => false,
        };
        if t.kind_is(n, "function_declaration") && !allowed {
            seq![plain(t.start(n), t.end(n), "Move function declaration to program or function body root."@)]
        } else {
            Seq::empty()
        }
    }

    proof fn lemma_reports_within(&self, t: &SyntaxTree, n: int) {
        lemma_node_span(t, n);
    }

    fn name(&self) -> &'static str {
        "no-inner-declarations"
    }

    fn default_severity(&self) -> Severity {
        Severity::Error
    }

    fn on_node(&self, t: &SyntaxTree, node: usize, ctx: &mut RuleContext) {
        if !t.has_kind(node, "function_declaration") {
            return;
        }
        if let Some(parent) = t.parent_of(node) {
            if t.has_kind(parent, "program") || t.has_kind(parent, "export_statement") {
                return;
            }
            if t.has_kind(parent, "statement_block") {
                if let Some(gp) = t.parent_of(parent) {
                    if is_function_like(t, gp) || t.has_kind(gp, "program") {
                        return;
                    }
                }
            }
        }
        ctx.report(
            t.start_byte(node),
            t.end_byte(node),
            "Move function declaration to program or function body root.",
        );
    }
}

} // verus!

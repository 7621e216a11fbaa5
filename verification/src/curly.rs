use vstd::prelude::*;
use crate::tree::lemma_field_valid;
use crate::diagnostic::{plain, ReportView, RuleContext, Severity};
use crate::rule::Rule;
use crate::tree::{SyntaxTree, lemma_node_span};

verus! {

/// Requires braces around the bodies of `if` statements and loops.
#[derive(Clone, Copy, Debug)]
pub struct Curly;

impl Rule for Curly {
    open spec fn spec_name(&self) -> Seq<char> {
        "curly"@
    }

    open spec fn spec_severity(&self) -> Severity {
        Severity::Warning
    }

    open spec fn spec_reports(&self, t: &SyntaxTree, n: int) -> Seq<ReportView> {
        if t.kind_is(n, "if_statement") {
            match t.field(n, "consequence") {
                Some(b) if !t.kind_is(b as int, "statement_block") => seq![
                    plain(t.start(b as int), t.end(b as int), "Expected { after 'if' condition."@),
                ],
                _ => Seq::empty(),
            }
        } else if t.kind_is(n, "for_statement") || t.kind_is(n, "for_in_statement") || t.kind_is(
            n,
            "while_statement",
        ) || t.kind_is(n, "do_statement") {
            match t.field(n, "body") {
                Some(b) if !t.kind_is(b as int, "statement_block") => seq![
                    plain(t.start(b as int), t.end(b as int), "Expected { after control statement."@),
                ],
                _ => Seq::empty(),
            }
        } else {
            Seq::empty()
        }
    }

    proof fn lemma_reports_within(&self, t: &SyntaxTree, n: int) {
        lemma_node_span(t, n);
        lemma_field_valid(t, n, "consequence"@, 0);
        lemma_field_valid(t, n, "body"@, 0);
        if let Some(b) = t.field(n, "consequence") {
            lemma_node_span(t, b as int);
        }
        if let Some(b) = t.field(n, "body") {
            lemma_node_span(t, b as int);
        }
    }

    fn name(&self) -> &'static str {
        "curly"
    }

    fn default_severity(&self) -> Severity {
        Severity::Warning
    }

    fn on_node(&self, t: &SyntaxTree, node: usize, ctx: &mut RuleContext) {
        if t.has_kind(node, "if_statement") {
            if let Some(body) = t.child_by_field_name(node, "consequence") {
                if !t.has_kind(body, "statement_block") {
                    ctx.report(t.start_byte(body), t.end_byte(body), "Expected { after 'if' condition.");
                }
            }
        } else if t.has_kind(node, "for_statement") || t.has_kind(node, "for_in_statement")
            || t.has_kind(node, "while_statement") || t.has_kind(node, "do_statement") {
            if let Some(body) = t.child_by_field_name(node, "body") {
                if !t.has_kind(body, "statement_block") {
                    ctx.report(t.start_byte(body), t.end_byte(body), "Expected { after control statement.");
                }
            }
        }
    }
}

} // verus!

use vstd::prelude::*;
use crate::tree::lemma_field_valid;
use crate::diagnostic::{with_fix, Fix, ReportView, RuleContext, Severity, Span};
use vstd::string::StringExecFns;
use crate::rule::Rule;
use crate::tree::{SyntaxTree, lemma_node_span};

verus! {

/// Requires `===` and `!==` in place of `==` and `!=`; the fix replaces the
/// operator.
#[derive(Clone, Copy, Debug)]
pub struct Eqeqeq;

impl Rule for Eqeqeq {
    open spec fn spec_name(&self) -> Seq<char> {
        "eqeqeq"@
    }

    open spec fn spec_severity(&self) -> Severity {
        Severity::Error
    }

    open spec fn spec_reports(&self, t: &SyntaxTree, n: int) -> Seq<ReportView> {
        match t.field(n, "operator") {
            Some(op) if t.kind_is(n, "binary_expression") && t.text_is(op as int, "==") => seq![
                with_fix(
                    t.start(op as int),
                    t.end(op as int),
                    "Expected '===' and instead saw '=='."@,
                    t.start(op as int),
                    t.end(op as int),
                    "==="@,
                ),
            ],
            Some(op) if t.kind_is(n, "binary_expression") && t.text_is(op as int, "!=") => seq![
                with_fix(
                    t.start(op as int),
                    t.end(op as int),
                    "Expected '!==' and instead saw '!='."@,
                    t.start(op as int),
                    t.end(op as int),
                    "!=="@,
                ),
            ],
            _ => Seq::empty(),
        }
    }

    proof fn lemma_reports_within(&self, t: &SyntaxTree, n: int) {
        lemma_node_span(t, n);
        lemma_field_valid(t, n, "operator"@, 0);
        if let Some(op) = t.field(n, "operator") {
            lemma_node_span(t, op as int);
        }
    }

    fn name(&self) -> &'static str {
        "eqeqeq"
    }

    fn default_severity(&self) -> Severity {
        Severity::Error
    }

    fn on_node(&self, t: &SyntaxTree, node: usize, ctx: &mut RuleContext) {
        if !t.has_kind(node, "binary_expression") {
            return;
        }
        let op = match t.child_by_field_name(node, "operator") {
            Some(o) => o,
            None => return,
        };
        let start = t.start_byte(op);
        let end = t.end_byte(op);
        if t.text_equals(op, "==") {
            ctx.report_with_fix(
                start,
                end,
                "Expected '===' and instead saw '=='.",
                Fix { range: Span { start, end }, text: String::from_str("===") },
            );
        } else if t.text_equals(op, "!=") {
            ctx.report_with_fix(
                start,
                end,
                "Expected '!==' and instead saw '!='.",
                Fix { range: Span { start, end }, text: String::from_str("!==") },
            );
        }
    }
}

} // verus!

use vstd::prelude::*;
use crate::diagnostic::{with_fix, Fix, ReportView, RuleContext, Severity, Span};
use vstd::string::StringExecFns;
use crate::rule::Rule;
use crate::tree::{SyntaxTree, lemma_node_span};

verus! {

/// Disallows `c ? true : false` and `c ? false : true`; the fix replaces
/// the expression by `c` or by its negation.
#[derive(Clone, Copy, Debug)]
pub struct NoUnneededTernary;

impl Rule for NoUnneededTernary {
    open spec fn spec_name(&self) -> Seq<char> {
        "no-unneeded-ternary"@
    }

    open spec fn spec_severity(&self) -> Severity {
        Severity::Warning
    }

    open spec fn spec_reports(&self, t: &SyntaxTree, n: int) -> Seq<ReportView> {
        if !t.kind_is(n, "ternary_expression") {
            Seq::empty()
        } else {
            match (t.field(n, "consequence"), t.field(n, "alternative"), t.field(n, "condition")) {
                (Some(c), Some(a), Some(cond)) => if t.text_is(c as int, "true") && t.text_is(
                    a as int,
                    "false",
                ) {
                    seq![
                        with_fix(
                            t.start(n),
                            t.end(n),
                            "Unnecessary use of boolean literals in conditional expression."@,
                            t.start(n),
                            t.end(n),
                            t.text_chars(cond as int),
                        ),
                    ]
                } else if t.text_is(c as int, "false") && t.text_is(a as int, "true") {
                    seq![
                        with_fix(
                            t.start(n),
                            t.end(n),
                            "Unnecessary use of boolean literals in conditional expression."@,
                            t.start(n),
                            t.end(n),
                            negation(t, cond as int),
                        ),
                    ]
                } else {
                    Seq::empty()
                },
                _ => Seq::empty(),
            }
        }
    }

    proof fn lemma_reports_within(&self, t: &SyntaxTree, n: int) {
        lemma_node_span(t, n);
    }

    fn name(&self) -> &'static str {
        "no-unneeded-ternary"
    }

    fn default_severity(&self) -> Severity {
        Severity::Warning
    }

    fn on_node(&self, t: &SyntaxTree, node: usize, ctx: &mut RuleContext) {
        if !t.has_kind(node, "ternary_expression") {
            return;
        }
        let consequence = match t.child_by_field_name(node, "consequence") {
            Some(c) => c,
            None => return,
        };
        let alternative = match t.child_by_field_name(node, "alternative") {
            Some(a) => a,
            None => return,
        };
        let condition = match t.child_by_field_name(node, "condition") {
            Some(c) => c,
            None => return,
        };
        let start = t.start_byte(node);
        let end = t.end_byte(node);
        if t.text_equals(consequence, "true") && t.text_equals(alternative, "false") {
            ctx.report_with_fix(
                start,
                end,
                "Unnecessary use of boolean literals in conditional expression.",
                Fix { range: Span { start, end }, text: t.text_string(condition) },
            );
        } else if t.text_equals(consequence, "false") && t.text_equals(alternative, "true") {
            let needs_parens = t.has_kind(condition, "binary_expression") || t.has_kind(
                condition,
                "ternary_expression",
            ) || t.has_kind(condition, "assignment_expression") || t.has_kind(
                condition,
                "sequence_expression",
            );
            let fix_text = if needs_parens {
                let mut s = String::from_str("!(");
                s.append(t.text_string(condition).as_str());
                s.append(")");
                s
            } else {
                let mut s = String::from_str("!");
                s.append(t.text_string(condition).as_str());
                s
            };
            ctx.report_with_fix(
                start,
                end,
                "Unnecessary use of boolean literals in conditional expression.",
                Fix { range: Span { start, end }, text: fix_text },
            );
        }
    }
}

/// The negation of condition `c`: `!` before it, with parentheses around a
/// binary, conditional, assignment or sequence expression.
pub open spec fn negation(t: &SyntaxTree, c: int) -> Seq<char> {
    if t.kind_is(c, "binary_expression") || t.kind_is(c, "ternary_expression") || t.kind_is(
        c,
        "assignment_expression",
    ) || t.kind_is(c, "sequence_expression") {
        "!("@ + t.text_chars(c) + ")"@
    } else {
        "!"@ + t.text_chars(c)
    }
}

} // verus!

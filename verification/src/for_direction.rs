use vstd::prelude::*;
use crate::diagnostic::{plain, ReportView, RuleContext, Severity};
use vstd::string::StringExecFns;
use crate::text::bytes_eq;
use crate::rule::Rule;
use crate::tree::{SyntaxTree, lemma_node_span};

verus! {

/// Disallows `for` loops whose update moves the loop variable away from the
/// bound in the condition: `i--` under `<` or `<=`, `i++` under `>` or `>=`.
#[derive(Clone, Copy, Debug)]
pub struct ForDirection;

impl Rule for ForDirection {
    open spec fn spec_name(&self) -> Seq<char> {
        "for-direction"@
    }

    open spec fn spec_severity(&self) -> Severity {
        Severity::Error
    }

    open spec fn spec_reports(&self, t: &SyntaxTree, n: int) -> Seq<ReportView> {
        if !t.kind_is(n, "for_statement") {
            Seq::empty()
        } else {
            match (t.field(n, "condition"), t.field(n, "increment")) {
                (Some(c), Some(inc)) if t.kind_is(c as int, "binary_expression") => match (
                    t.field(c as int, "operator"),
                    t.field(c as int, "left"),
                ) {
                    (Some(op), Some(l)) if wrong_direction(t, op as int, inc as int, t.text(l as int)) => seq![
                        plain(
                            t.start(n),
                            t.end(n),
                            "The update clause in this loop moves the variable in the wrong direction."@,
                        ),
                    ],
                    _ => Seq::empty(),
                },
                _ => Seq::empty(),
            }
        }
    }

    proof fn lemma_reports_within(&self, t: &SyntaxTree, n: int) {
        lemma_node_span(t, n);
    }

    fn name(&self) -> &'static str {
        "for-direction"
    }

    fn default_severity(&self) -> Severity {
        Severity::Error
    }

    fn on_node(&self, t: &SyntaxTree, node: usize, ctx: &mut RuleContext) {
        if !t.has_kind(node, "for_statement") {
            return;
        }
        let condition = match t.child_by_field_name(node, "condition") {
            Some(c) => c,
            None => return,
        };
        let increment = match t.child_by_field_name(node, "increment") {
            Some(i) => i,
            None => return,
        };
        if !t.has_kind(condition, "binary_expression") {
            return;
        }
        let cond_op = match t.child_by_field_name(condition, "operator") {
            Some(o) => o,
            None => return,
        };
        let cond_var = match t.child_by_field_name(condition, "left") {
            Some(l) => t.node_text(l),
            None => return,
        };
        let wrong = if t.text_equals(cond_op, "<") || t.text_equals(cond_op, "<=") {
            is_updated_by(t, increment, cond_var, "--")
        } else if t.text_equals(cond_op, ">") || t.text_equals(cond_op, ">=") {
            is_updated_by(t, increment, cond_var, "++")
        } else {
            false
        };
        if wrong {
            ctx.report(
                t.start_byte(node),
                t.end_byte(node),
                "The update clause in this loop moves the variable in the wrong direction.",
            );
        }
    }
}

/// Node `n` is the update expression `var` followed or preceded by `op`.
pub open spec fn updated_by(t: &SyntaxTree, n: int, var: Seq<u8>, op: &str) -> bool {
    t.kind_is(n, "update_expression") && match (t.field(n, "operator"), t.field(n, "argument")) {
        (Some(o), Some(a)) => t.text_is(o as int, op) && t.text(a as int) == var,
        _ => false,
    }
}

/// Whether node `n` applies `op` to the variable `var`.
fn is_updated_by(t: &SyntaxTree, n: usize, var: &[u8], op: &str) -> (r: bool)
    requires
        t.wf(),
        t.valid_node(n as int),
    ensures
        r == updated_by(t, n as int, var@, op),
{
    if t.has_kind(n, "update_expression") {
        if let Some(o) = t.child_by_field_name(n, "operator") {
            if let Some(a) = t.child_by_field_name(n, "argument") {
                return t.text_equals(o, op) && bytes_eq(t.node_text(a), var);
            }
        }
    }
    false
}

/// The loop condition's operator `op` and the update `inc` of variable `var`
/// point in opposite directions.
pub open spec fn wrong_direction(t: &SyntaxTree, op: int, inc: int, var: Seq<u8>) -> bool {
    if t.text_is(op, "<") || t.text_is(op, "<=") {
        updated_by(t, inc, var, "--")
    } else if t.text_is(op, ">") || t.text_is(op, ">=") {
        updated_by(t, inc, var, "++")
    } else {
        false
    }
}

} // verus!

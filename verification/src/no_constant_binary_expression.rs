use vstd::prelude::*;
use crate::diagnostic::{plain, ReportView, RuleContext, Severity};
use vstd::string::StringSliceAdditionalSpecFns;
use crate::text::bytes_eq;
use crate::rule::Rule;
use crate::tree::{SyntaxTree, lemma_node_span};

verus! {

/// Disallows comparisons with newly built objects and `||` or `??` whose
/// left side is always truthy.
#[derive(Clone, Copy, Debug)]
pub struct NoConstantBinaryExpression;

impl Rule for NoConstantBinaryExpression {
    open spec fn spec_name(&self) -> Seq<char> {
        "no-constant-binary-expression"@
    }

    open spec fn spec_severity(&self) -> Severity {
        Severity::Error
    }

    open spec fn spec_reports(&self, t: &SyntaxTree, n: int) -> Seq<ReportView> {
        if !t.kind_is(n, "binary_expression") {
            Seq::empty()
        } else {
            match (t.field(n, "operator"), t.field(n, "left"), t.field(n, "right")) {
                (Some(op), Some(l), Some(r)) => {
                    let o = t.text(op as int);
                    (if equality_operator(o) && (always_new(t, l as int) || always_new(t, r as int)) {
                        seq![
                            plain(
                                t.start(n),
                                t.end(n),
                                "Unexpected constant binary expression. Comparisons with newly constructed objects are always falsy."@,
                            ),
                        ]
                    } else {
                        Seq::empty()
                    }) + (if (o == "||".spec_bytes() || o == "??".spec_bytes()) && constant_truthy(
                        t,
                        l as int,
                    ) {
                        seq![
                            plain(
                                t.start(n),
                                t.end(n),
                                "Unexpected constant binary expression. The left side is always truthy."@,
                            ),
                        ]
                    } else {
                        Seq::empty()
                    })
                },
                _ => Seq::empty(),
            }
        }
    }

    proof fn lemma_reports_within(&self, t: &SyntaxTree, n: int) {
        lemma_node_span(t, n);
    }

    fn name(&self) -> &'static str {
        "no-constant-binary-expression"
    }

    fn default_severity(&self) -> Severity {
        Severity::Error
    }

    fn on_node(&self, t: &SyntaxTree, node: usize, ctx: &mut RuleContext) {
        if !t.has_kind(node, "binary_expression") {
            return;
        }
        let op = match t.child_by_field_name(node, "operator") {
            Some(o) => o,
            None => return,
        };
        let left = match t.child_by_field_name(node, "left") {
            Some(l) => l,
            None => return,
        };
        let right = match t.child_by_field_name(node, "right") {
            Some(r) => r,
            None => return,
        };
        let o = t.node_text(op);
        let equality = bytes_eq(o, "===".as_bytes()) || bytes_eq(o, "==".as_bytes()) || bytes_eq(
            o,
            "!==".as_bytes(),
        ) || bytes_eq(o, "!=".as_bytes());
        if equality && (is_always_new(t, left) || is_always_new(t, right)) {
            ctx.report(
                t.start_byte(node),
                t.end_byte(node),
                "Unexpected constant binary expression. Comparisons with newly constructed objects are always falsy.",
            );
        }
        if (bytes_eq(o, "||".as_bytes()) || bytes_eq(o, "??".as_bytes())) && is_constant_truthy(t, left) {
            ctx.report(
                t.start_byte(node),
                t.end_byte(node),
                "Unexpected constant binary expression. The left side is always truthy.",
            );
        }
    }
}

/// The operators `===`, `==`, `!==` and `!=`.
pub open spec fn equality_operator(s: Seq<u8>) -> bool {
    ||| s == "===".spec_bytes()
    ||| s == "==".spec_bytes()
    ||| s == "!==".spec_bytes()
    ||| s == "!=".spec_bytes()
}

/// Expressions that always build a new object.
pub open spec fn always_new(t: &SyntaxTree, n: int) -> bool {
    ||| t.kind_is(n, "new_expression")
    ||| t.kind_is(n, "object")
    ||| t.kind_is(n, "array")
    ||| t.kind_is(n, "class")
}

fn is_always_new(t: &SyntaxTree, n: usize) -> (r: bool)
    requires
        t.valid_node(n as int),
    ensures
        r == always_new(t, n as int),
{
    t.has_kind(n, "new_expression") || t.has_kind(n, "object") || t.has_kind(n, "array")
        || t.has_kind(n, "class")
}

/// Expressions whose value is always truthy.
pub open spec fn constant_truthy(t: &SyntaxTree, n: int) -> bool {
    ||| t.kind_is(n, "string")
    ||| t.kind_is(n, "template_string")
    ||| t.kind_is(n, "object")
    ||| t.kind_is(n, "array")
    ||| t.kind_is(n, "class")
    ||| t.kind_is(n, "true")
}

fn is_constant_truthy(t: &SyntaxTree, n: usize) -> (r: bool)
    requires
        t.valid_node(n as int),
    ensures
        r == constant_truthy(t, n as int),
{
    t.has_kind(n, "string") || t.has_kind(n, "template_string") || t.has_kind(n, "object")
        || t.has_kind(n, "array") || t.has_kind(n, "class") || t.has_kind(n, "true")
}

} // verus!

use vstd::prelude::*;
use crate::diagnostic::{plain, ReportView, RuleContext, Severity};
use vstd::string::StringExecFns;
use crate::rule::Rule;
use crate::tree::{SyntaxTree, lemma_node_span};

verus! {

/// Disallows `!!x` and `Boolean(x)` where the value is already used as a
/// boolean: in the test of an `if`, `while`, `do` or conditional expression,
/// in the condition of a `for` loop, or under another `!`.
#[derive(Clone, Copy, Debug)]
pub struct NoExtraBooleanCast;

impl Rule for NoExtraBooleanCast {
    open spec fn spec_name(&self) -> Seq<char> {
        "no-extra-boolean-cast"@
    }

    open spec fn spec_severity(&self) -> Severity {
        Severity::Error
    }

    open spec fn spec_reports(&self, t: &SyntaxTree, n: int) -> Seq<ReportView> {
        if t.kind_is(n, "unary_expression") {
            match (t.field(n, "operator"), t.field(n, "argument")) {
                (Some(op), Some(arg)) if t.text_is(op as int, "!") && t.kind_is(arg as int, "unary_expression")
                    && (match t.field(arg as int, "operator") {
                    Some(inner) => t.text_is(inner as int, "!"),
                    None => false,
                }) && boolean_context(t, n) => seq![
                    plain(t.start(n), t.end(n), "Redundant double negation."@),
                ],
                _ => Seq::empty(),
            }
        } else if t.kind_is(n, "call_expression") {
            match t.field(n, "function") {
                Some(f) if t.text_is(f as int, "Boolean") && boolean_context(t, n) => seq![
                    plain(t.start(n), t.end(n), "Redundant Boolean call in boolean context."@),
                ],
                _ => Seq::empty(),
            }
        } else {
            Seq::empty()
        }
    }

    proof fn lemma_reports_within(&self, t: &SyntaxTree, n: int) {
        lemma_node_span(t, n);
    }

    fn name(&self) -> &'static str {
        "no-extra-boolean-cast"
    }

    fn default_severity(&self) -> Severity {
        Severity::Error
    }

    fn on_node(&self, t: &SyntaxTree, node: usize, ctx: &mut RuleContext) {
        if t.has_kind(node, "unary_expression") {
            let op = match t.child_by_field_name(node, "operator") {
                Some(o) => o,
                None => return,
            };
            if !t.text_equals(op, "!") {
                return;
            }
            let arg = match t.child_by_field_name(node, "argument") {
                Some(a) => a,
                None => return,
            };
            if t.has_kind(arg, "unary_expression") {
                if let Some(inner_op) = t.child_by_field_name(arg, "operator") {
                    if t.text_equals(inner_op, "!") {
                        if is_in_boolean_context(t, node) {
                            ctx.report(t.start_byte(node), t.end_byte(node), "Redundant double negation.");
                        }
                    }
                }
            }
        } else if t.has_kind(node, "call_expression") {
            if let Some(func) = t.child_by_field_name(node, "function") {
                if t.text_equals(func, "Boolean") {
                    if is_in_boolean_context(t, node) {
                        ctx.report(
                            t.start_byte(node),
                            t.end_byte(node),
                            "Redundant Boolean call in boolean context.",
                        );
                    }
                }
            }
        }
    }
}

/// Node `inner` lies within the byte range of node `outer`.
pub open spec fn within(t: &SyntaxTree, outer: int, inner: int) -> bool {
    t.node(inner).start_byte >= t.node(outer).start_byte && t.node(inner).end_byte
        <= t.node(outer).end_byte
}

/// The value of node `c` is used as a boolean: going up through parentheses,
/// the first other enclosing node is the test of an `if`, `while`, `do` or
/// conditional expression, a `for` loop whose condition holds it, or a `!`.
pub open spec fn boolean_context(t: &SyntaxTree, c: int) -> bool
    decreases c,
{
    match t.parent(c) {
        Some(p) if 0 <= p < c && t.valid_node(c) => if t.kind_is(p as int, "if_statement") || t.kind_is(
            p as int,
            "while_statement",
        ) || t.kind_is(p as int, "do_statement") || t.kind_is(p as int, "ternary_expression") {
            true
        } else if t.kind_is(p as int, "for_statement") {
            match t.field(p as int, "condition") {
                Some(cond) => within(t, cond as int, c),
                None => false,
            }
        } else if t.kind_is(p as int, "unary_expression") {
            match t.field(p as int, "operator") {
                Some(op) => t.kind_is(op as int, "!"),
                None => false,
            }
        } else if t.kind_is(p as int, "parenthesized_expression") {
            boolean_context(t, p as int)
        } else {
            false
        },
        _ => false,
    }
}

fn is_in_boolean_context(t: &SyntaxTree, node: usize) -> (r: bool)
    requires
        t.wf(),
        t.valid_node(node as int),
    ensures
        r == boolean_context(t, node as int),
{
    let mut current = node;
    loop
        invariant
            t.wf(),
            t.valid_node(current as int),
            boolean_context(t, node as int) == boolean_context(t, current as int),
        decreases current,
    {
        let parent = match t.parent_of(current) {
            Some(p) => p,
            None => return false,
        };
        if t.has_kind(parent, "if_statement") || t.has_kind(parent, "while_statement") || t.has_kind(
            parent,
            "do_statement",
        ) || t.has_kind(parent, "ternary_expression") {
            return true;
        } else if t.has_kind(parent, "for_statement") {
            return match t.child_by_field_name(parent, "condition") {
                Some(cond) => t.nodes[current].start_byte >= t.nodes[cond].start_byte
                    && t.nodes[current].end_byte <= t.nodes[cond].end_byte,
                None => false,
            };
        } else if t.has_kind(parent, "unary_expression") {
            return match t.child_by_field_name(parent, "operator") {
                Some(op) => t.has_kind(op, "!"),
                None => false,
            };
        } else if t.has_kind(parent, "parenthesized_expression") {
            current = parent;
        } else {
            return false;
        }
    }
}

} // verus!

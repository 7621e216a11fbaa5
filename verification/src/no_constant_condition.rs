use vstd::prelude::*;
use crate::diagnostic::{plain, ReportView, RuleContext, Severity};
use vstd::string::StringExecFns;
use crate::helpers::{unwrap_parens, unwrapped};
use crate::rule::Rule;
use crate::tree::{SyntaxTree, lemma_node_span};

verus! {

/// Disallows constant conditions in `if`, `while`, `do`, `for` and
/// conditional expressions. `while (true)` is allowed.
#[derive(Clone, Copy, Debug)]
pub struct NoConstantCondition;

impl Rule for NoConstantCondition {
    open spec fn spec_name(&self) -> Seq<char> {
        "no-constant-condition"@
    }

    open spec fn spec_severity(&self) -> Severity {
        Severity::Error
    }

    open spec fn spec_reports(&self, t: &SyntaxTree, n: int) -> Seq<ReportView> {
        let msg = "Unexpected constant condition."@;
        if t.kind_is(n, "if_statement") || t.kind_is(n, "do_statement") || t.kind_is(n, "for_statement")
            || t.kind_is(n, "ternary_expression") {
            match t.field(n, "condition") {
                Some(c) if constant(t, c as int) => seq![plain(t.start(n), t.end(n), msg)],
                _ => Seq::empty(),
            }
        } else if t.kind_is(n, "while_statement") {
            match t.field(n, "condition") {
                Some(c) if !t.kind_is(unwrapped(t, c as int), "true") && constant(t, c as int) => seq![
                    plain(t.start(n), t.end(n), msg),
                ],
                _ => Seq::empty(),
            }
        } else {
            Seq::empty()
        }
    }

    proof fn lemma_reports_within(&self, t: &SyntaxTree, n: int) {
        lemma_node_span(t, n);
    }

    fn name(&self) -> &'static str {
        "no-constant-condition"
    }

    fn default_severity(&self) -> Severity {
        Severity::Error
    }

    fn on_node(&self, t: &SyntaxTree, node: usize, ctx: &mut RuleContext) {
        if t.has_kind(node, "if_statement") || t.has_kind(node, "do_statement") || t.has_kind(
            node,
            "for_statement",
        ) || t.has_kind(node, "ternary_expression") {
            if let Some(cond) = t.child_by_field_name(node, "condition") {
                if is_constant(t, cond) {
                    ctx.report(t.start_byte(node), t.end_byte(node), "Unexpected constant condition.");
                }
            }
        } else if t.has_kind(node, "while_statement") {
            if let Some(cond) = t.child_by_field_name(node, "condition") {
                let inner = unwrap_parens(t, cond);
                if t.has_kind(inner, "true") {
                    return;
                }
                if is_constant(t, cond) {
                    ctx.report(t.start_byte(node), t.end_byte(node), "Unexpected constant condition.");
                }
            }
        }
    }
}

/// Literals whose value is fixed.
pub open spec fn literal(t: &SyntaxTree, n: int) -> bool {
    ||| t.kind_is(n, "true")
    ||| t.kind_is(n, "false")
    ||| t.kind_is(n, "number")
    ||| t.kind_is(n, "string")
    ||| t.kind_is(n, "null")
    ||| t.kind_is(n, "undefined")
    ||| t.kind_is(n, "regex")
}

/// A template string without substitutions.
pub open spec fn plain_template(t: &SyntaxTree, n: int) -> bool {
    !exists|i: int|
        0 <= i < t.named_children(n).len() && t.kind_is(
            #[trigger] t.named_children(n)[i] as int,
            "template_substitution",
        )
}

/// Expressions whose value is known without running the program: literals,
/// templates without substitutions, array and object literals, and
/// parenthesized, unary, binary and sequence expressions built from them.
pub open spec fn constant(t: &SyntaxTree, n: int) -> bool
    decreases t.len() - n,
{
    if !t.valid_node(n) {
        false
    } else if literal(t, n) {
        true
    } else if t.kind_is(n, "template_string") {
        plain_template(t, n)
    } else if t.kind_is(n, "array") || t.kind_is(n, "object") {
        true
    } else if t.kind_is(n, "parenthesized_expression") {
        match t.named_child(n, 0) {
            Some(c) if n < c < t.len() => constant(t, c as int),
            _ => false,
        }
    } else if t.kind_is(n, "unary_expression") {
        match t.field(n, "argument") {
            Some(a) if n < a < t.len() => constant(t, a as int),
            _ => false,
        }
    } else if t.kind_is(n, "binary_expression") {
        (match t.field(n, "left") {
            Some(l) if n < l < t.len() => constant(t, l as int),
            _ => false,
        }) && match t.field(n, "right") {
            Some(r) if n < r < t.len() => constant(t, r as int),
            _ => false,
        }
    } else if t.kind_is(n, "sequence_expression") {
        let count = t.named_child_count(n);
        count > 0 && match t.named_child(n, count - 1) {
            Some(last) if n < last < t.len() => constant(t, last as int),
            _ => false,
        }
    } else {
        false
    }
}

fn is_literal(t: &SyntaxTree, n: usize) -> (r: bool)
    requires
        t.valid_node(n as int),
    ensures
        r == literal(t, n as int),
{
    t.has_kind(n, "true") || t.has_kind(n, "false") || t.has_kind(n, "number") || t.has_kind(
        n,
        "string",
    ) || t.has_kind(n, "null") || t.has_kind(n, "undefined") || t.has_kind(n, "regex")
}

fn is_plain_template(t: &SyntaxTree, n: usize) -> (r: bool)
    requires
        t.wf(),
        t.valid_node(n as int),
    ensures
        r == plain_template(t, n as int),
{
    let kids = t.named_children_of(n);
    let mut i: usize = 0;
    while i < kids.len()
        invariant
            t.wf(),
            kids@ == t.named_children(n as int),
            forall|j: int| 0 <= j < kids@.len() ==> n < #[trigger] kids@[j] < t.len(),
            0 <= i <= kids@.len(),
            forall|j: int| 0 <= j < i ==> !t.kind_is(#[trigger] kids@[j] as int, "template_substitution"),
        decreases kids.len() - i,
    {
        if t.has_kind(kids[i], "template_substitution") {
            return false;
        }
        i = i + 1;
    }
    true
}

/// Whether expression `n` is constant.
fn is_constant(t: &SyntaxTree, n: usize) -> (r: bool)
    requires
        t.wf(),
        t.valid_node(n as int),
    ensures
        r == constant(t, n as int),
    decreases t.len() - n,
{
    if is_literal(t, n) {
        true
    } else if t.has_kind(n, "template_string") {
        is_plain_template(t, n)
    } else if t.has_kind(n, "array") || t.has_kind(n, "object") {
        true
    } else if t.has_kind(n, "parenthesized_expression") {
        match t.named_child_at(n, 0) {
            Some(c) => is_constant(t, c),
            None => false,
        }
    } else if t.has_kind(n, "unary_expression") {
        match t.child_by_field_name(n, "argument") {
            Some(a) => is_constant(t, a),
            None => false,
        }
    } else if t.has_kind(n, "binary_expression") {
        let left = match t.child_by_field_name(n, "left") {
            Some(l) => is_constant(t, l),
            None => false,
        };
        left && match t.child_by_field_name(n, "right") {
            Some(r) => is_constant(t, r),
            None => false,
        }
    } else if t.has_kind(n, "sequence_expression") {
        let count = t.count_named(n);
        count > 0 && match t.named_child_at(n, count - 1) {
            Some(last) => is_constant(t, last),
            None => false,
        }
    } else {
        false
    }
}

} // verus!

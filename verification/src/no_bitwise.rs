use vstd::prelude::*;
use crate::diagnostic::{plain, ReportView, RuleContext, Severity};
use vstd::string::StringExecFns;
use vstd::string::StringSliceAdditionalSpecFns;
use crate::text::bytes_eq;
use crate::rule::Rule;
use crate::tree::{SyntaxTree, lemma_node_span};

verus! {

/// Disallows bitwise operators.
#[derive(Clone, Copy, Debug)]
pub struct NoBitwise;

impl Rule for NoBitwise {
    open spec fn spec_name(&self) -> Seq<char> {
        "no-bitwise"@
    }

    open spec fn spec_severity(&self) -> Severity {
        Severity::Warning
    }

    open spec fn spec_reports(&self, t: &SyntaxTree, n: int) -> Seq<ReportView> {
        if t.kind_is(n, "binary_expression") {
            match t.field(n, "operator") {
                Some(op) if bitwise_operator(t.text(op as int)) => seq![
                    plain(t.start(n), t.end(n), "Unexpected use of '"@ + t.text_chars(op as int) + "'."@),
                ],
                _ => Seq::empty(),
            }
        } else if t.kind_is(n, "unary_expression") {
            match t.field(n, "operator") {
                Some(op) if t.text_is(op as int, "~") => seq![
                    plain(t.start(n), t.end(n), "Unexpected use of '~'."@),
                ],
                _ => Seq::empty(),
            }
        } else if t.kind_is(n, "augmented_assignment_expression") {
            match t.field(n, "operator") {
                Some(op) if bitwise_assignment(t.text(op as int)) => seq![
                    plain(t.start(n), t.end(n), "Unexpected use of '"@ + t.text_chars(op as int) + "'."@),
                ],
                _ => Seq::empty(),
            }
        } else {
            Seq::empty()
        }
    }

    proof fn lemma_reports_within(&self, t: &SyntaxTree, n: int) {
        lemma_node_span(t, n);
    }

    fn name(&self) -> &'static str {
        "no-bitwise"
    }

    fn default_severity(&self) -> Severity {
        Severity::Warning
    }

    fn on_node(&self, t: &SyntaxTree, node: usize, ctx: &mut RuleContext) {
        if t.has_kind(node, "binary_expression") {
            if let Some(op) = t.child_by_field_name(node, "operator") {
                if is_bitwise_operator(t.node_text(op)) {
                    let mut msg = String::from_str("Unexpected use of '");
                    msg.append(t.text_string(op).as_str());
                    msg.append("'.");
                    ctx.report_string(t.start_byte(node), t.end_byte(node), msg);
                }
            }
        } else if t.has_kind(node, "unary_expression") {
            if let Some(op) = t.child_by_field_name(node, "operator") {
                if t.text_equals(op, "~") {
                    ctx.report(t.start_byte(node), t.end_byte(node), "Unexpected use of '~'.");
                }
            }
        } else if t.has_kind(node, "augmented_assignment_expression") {
            if let Some(op) = t.child_by_field_name(node, "operator") {
                if is_bitwise_assignment(t.node_text(op)) {
                    let mut msg = String::from_str("Unexpected use of '");
                    msg.append(t.text_string(op).as_str());
                    msg.append("'.");
                    ctx.report_string(t.start_byte(node), t.end_byte(node), msg);
                }
            }
        }
    }
}

/// The bitwise operators `&`, `|`, `^`, `~`, `<<`, `>>` and `>>>`.
pub open spec fn bitwise_operator(s: Seq<u8>) -> bool {
    ||| s == "&".spec_bytes()
    ||| s == "|".spec_bytes()
    ||| s == "^".spec_bytes()
    ||| s == "~".spec_bytes()
    ||| s == "<<".spec_bytes()
    ||| s == ">>".spec_bytes()
    ||| s == ">>>".spec_bytes()
}

fn is_bitwise_operator(s: &[u8]) -> (r: bool)
    ensures
        r == bitwise_operator(s@),
{
    bytes_eq(s, "&".as_bytes()) || bytes_eq(s, "|".as_bytes()) || bytes_eq(s, "^".as_bytes())
        || bytes_eq(s, "~".as_bytes()) || bytes_eq(s, "<<".as_bytes()) || bytes_eq(
        s,
        ">>".as_bytes(),
    ) || bytes_eq(s, ">>>".as_bytes())
}

/// The bitwise compound assignments `&=`, `|=`, `^=`, `<<=`, `>>=` and `>>>=`.
pub open spec fn bitwise_assignment(s: Seq<u8>) -> bool {
    ||| s == "&=".spec_bytes()
    ||| s == "|=".spec_bytes()
    ||| s == "^=".spec_bytes()
    ||| s == "<<=".spec_bytes()
    ||| s == ">>=".spec_bytes()
    ||| s == ">>>=".spec_bytes()
}

fn is_bitwise_assignment(s: &[u8]) -> (r: bool)
    ensures
        r == bitwise_assignment(s@),
{
    bytes_eq(s, "&=".as_bytes()) || bytes_eq(s, "|=".as_bytes()) || bytes_eq(s, "^=".as_bytes())
        || bytes_eq(s, "<<=".as_bytes()) || bytes_eq(s, ">>=".as_bytes()) || bytes_eq(
        s,
        ">>>=".as_bytes(),
    )
}

} // verus!

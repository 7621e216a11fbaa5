use vstd::prelude::*;
use crate::diagnostic::{plain, ReportView, RuleContext, Severity};
use vstd::string::StringExecFns;
use vstd::string::StringSliceAdditionalSpecFns;
use crate::text::{bytes_eq, concat_bytes};
use crate::rule::Rule;
use crate::tree::{SyntaxTree, lemma_node_span};

verus! {

/// Disallows number literals other than -1, 0, 1 and 2, except as the
/// initial value of a variable.
#[derive(Clone, Copy, Debug)]
pub struct NoMagicNumbers;

impl Rule for NoMagicNumbers {
    open spec fn spec_name(&self) -> Seq<char> {
        "no-magic-numbers"@
    }

    open spec fn spec_severity(&self) -> Severity {
        Severity::Warning
    }

    open spec fn spec_reports(&self, t: &SyntaxTree, n: int) -> Seq<ReportView> {
        if !t.kind_is(n, "number") {
            Seq::empty()
        } else {
            let negated = match t.parent(n) {
                Some(p) => t.kind_is(p as int, "unary_expression") && match t.field(p as int, "operator") {
                    Some(op) => t.text_is(op as int, "-"),
                    None => false,
                },
                None => false,
            };
            let effective = if negated {
                "-".spec_bytes() + t.text(n)
            } else {
                t.text(n)
            };
            let in_declaration = match t.parent(n) {
                Some(p) => t.kind_is(p as int, "variable_declarator") || (t.kind_is(p as int, "unary_expression")
                    && match t.parent(p as int) {
                    Some(g) => t.kind_is(g as int, "variable_declarator"),
                    None => false,
                }),
                None => false,
            };
            if allowed_number(effective) || in_declaration {
                Seq::empty()
            } else {
                seq![plain(t.start(n), t.end(n), "No magic number: "@ + t.text_chars(n) + "."@)]
            }
        }
    }

    proof fn lemma_reports_within(&self, t: &SyntaxTree, n: int) {
        lemma_node_span(t, n);
    }

    fn name(&self) -> &'static str {
        "no-magic-numbers"
    }

    fn default_severity(&self) -> Severity {
        Severity::Warning
    }

    fn on_node(&self, t: &SyntaxTree, node: usize, ctx: &mut RuleContext) {
        if !t.has_kind(node, "number") {
            return;
        }
        let text = t.node_text(node);
        let mut negated = false;
        if let Some(parent) = t.parent_of(node) {
            if t.has_kind(parent, "unary_expression") {
                if let Some(op) = t.child_by_field_name(parent, "operator") {
                    if t.text_equals(op, "-") {
                        negated = true;
                    }
                }
            }
        }
        let allowed = if negated {
            let effective = concat_bytes("-".as_bytes(), text);
            is_allowed_number(effective.as_slice())
        } else {
            is_allowed_number(text)
        };
        if allowed {
            return;
        }
        if let Some(parent) = t.parent_of(node) {
            if t.has_kind(parent, "variable_declarator") {
                return;
            }
            if t.has_kind(parent, "unary_expression") {
                if let Some(gp) = t.parent_of(parent) {
                    if t.has_kind(gp, "variable_declarator") {
                        return;
                    }
                }
            }
        }
        let mut msg = String::from_str("No magic number: ");
        msg.append(t.text_string(node).as_str());
        msg.append(".");
        ctx.report_string(t.start_byte(node), t.end_byte(node), msg);
    }
}

/// The numbers written `-1`, `0`, `1` and `2`.
pub open spec fn allowed_number(s: Seq<u8>) -> bool {
    ||| s == "-1".spec_bytes()
    ||| s == "0".spec_bytes()
    ||| s == "1".spec_bytes()
    ||| s == "2".spec_bytes()
}

fn is_allowed_number(s: &[u8]) -> (r: bool)
    ensures
        r == allowed_number(s@),
{
    bytes_eq(s, "-1".as_bytes()) || bytes_eq(s, "0".as_bytes()) || bytes_eq(s, "1".as_bytes())
        || bytes_eq(s, "2".as_bytes())
}

} // verus!

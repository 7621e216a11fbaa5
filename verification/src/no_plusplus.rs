use vstd::prelude::*;
use crate::diagnostic::{plain, ReportView, RuleContext, Severity};
use vstd::string::StringExecFns;
use crate::rule::Rule;
use crate::tree::{SyntaxTree, lemma_node_span};

verus! {

/// Disallows the `++` and `--` operators.
#[derive(Clone, Copy, Debug)]
pub struct NoPlusplus;

impl Rule for NoPlusplus {
    open spec fn spec_name(&self) -> Seq<char> {
        "no-plusplus"@
    }

    open spec fn spec_severity(&self) -> Severity {
        Severity::Warning
    }

    open spec fn spec_reports(&self, t: &SyntaxTree, n: int) -> Seq<ReportView> {
        match t.field(n, "operator") {
            Some(op) if t.kind_is(n, "update_expression") && (t.text_is(op as int, "++")
                || t.text_is(op as int, "--")) => seq![
                plain(
                    t.start(n),
                    t.end(n),
                    "Unary operator '"@ + t.text_chars(op as int) + "' used."@,
                ),
            ],
            _ => Seq::empty(),
        }
    }

    proof fn lemma_reports_within(&self, t: &SyntaxTree, n: int) {
        lemma_node_span(t, n);
    }

    fn name(&self) -> &'static str {
        "no-plusplus"
    }

    fn default_severity(&self) -> Severity {
        Severity::Warning
    }

    fn on_node(&self, t: &SyntaxTree, node: usize, ctx: &mut RuleContext) {
        if t.has_kind(node, "update_expression") {
            if let Some(op) = t.child_by_field_name(node, "operator") {
                if t.text_equals(op, "++") || t.text_equals(op, "--") {
                    let mut msg = String::from_str("Unary operator '");
                    msg.append(t.text_string(op).as_str());
                    msg.append("' used.");
                    ctx.report_string(t.start_byte(node), t.end_byte(node), msg);
                }
            }
        }
    }
}

} // verus!

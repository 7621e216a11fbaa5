use vstd::prelude::*;
use crate::diagnostic::{plain, ReportView, RuleContext, Severity};
use vstd::string::StringExecFns;
use crate::rule::Rule;
use crate::tree::{SyntaxTree, lemma_node_span};

verus! {

/// Disallows assigning a variable to itself.
#[derive(Clone, Copy, Debug)]
pub struct NoSelfAssign;

impl Rule for NoSelfAssign {
    open spec fn spec_name(&self) -> Seq<char> {
        "no-self-assign"@
    }

    open spec fn spec_severity(&self) -> Severity {
        Severity::Error
    }

    open spec fn spec_reports(&self, t: &SyntaxTree, n: int) -> Seq<ReportView> {
        match (t.field(n, "left"), t.field(n, "right")) {
            (Some(l), Some(r)) if t.kind_is(n, "assignment_expression") && t.text(l as int) == t.text(
                r as int,
            ) => seq![
                plain(t.start(n), t.end(n), "'"@ + t.text_chars(l as int) + "' is assigned to itself."@),
            ],
            _ => Seq::empty(),
        }
    }

    proof fn lemma_reports_within(&self, t: &SyntaxTree, n: int) {
        lemma_node_span(t, n);
    }

    fn name(&self) -> &'static str {
        "no-self-assign"
    }

    fn default_severity(&self) -> Severity {
        Severity::Error
    }

    fn on_node(&self, t: &SyntaxTree, node: usize, ctx: &mut RuleContext) {
        if !t.has_kind(node, "assignment_expression") {
            return;
        }
        let left = match t.child_by_field_name(node, "left") {
            Some(l) => l,
            None => return,
        };
        let right = match t.child_by_field_name(node, "right") {
            Some(r) => r,
            None => return,
        };
        if t.same_text(left, right) {
            let mut msg = String::from_str("'");
            msg.append(t.text_string(left).as_str());
            msg.append("' is assigned to itself.");
            ctx.report_string(t.start_byte(node), t.end_byte(node), msg);
        }
    }
}

} // verus!

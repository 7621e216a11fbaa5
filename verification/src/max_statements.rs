use vstd::prelude::*;
use crate::diagnostic::{plain, ReportView, RuleContext, Severity};
use vstd::string::StringExecFns;
use crate::helpers::{function_like, is_function_like};
use crate::text::{decimal, decimal_string};
use crate::rule::Rule;
use crate::tree::{SyntaxTree, lemma_node_span};

verus! {

/// Limits a function body to ten statements.
#[derive(Clone, Copy, Debug)]
pub struct MaxStatements;

impl Rule for MaxStatements {
    open spec fn spec_name(&self) -> Seq<char> {
        "max-statements"@
    }

    open spec fn spec_severity(&self) -> Severity {
        Severity::Warning
    }

    open spec fn spec_reports(&self, t: &SyntaxTree, n: int) -> Seq<ReportView> {
        match t.field(n, "body") {
            Some(b) if function_like(t, n) && t.kind_is(b as int, "statement_block")
                && t.named_child_count(b as int) > 10 => seq![
                plain(
                    t.start(n),
                    t.end(n),
                    "Function has too many statements ("@ + decimal(t.named_child_count(b as int) as nat)
                        + "). Maximum allowed is 10."@,
                ),
            ],
            _ => Seq::empty(),
        }
    }

    proof fn lemma_reports_within(&self, t: &SyntaxTree, n: int) {
        lemma_node_span(t, n);
    }

    fn name(&self) -> &'static str {
        "max-statements"
    }

    fn default_severity(&self) -> Severity {
        Severity::Warning
    }

    fn on_node(&self, t: &SyntaxTree, node: usize, ctx: &mut RuleContext) {
        if !is_function_like(t, node) {
            return;
        }
        let body = match t.child_by_field_name(node, "body") {
            Some(b) => b,
            None => return,
        };
        if !t.has_kind(body, "statement_block") {
            return;
        }
        let count = t.count_named(body);
        if count > 10 {
            let mut msg = String::from_str("Function has too many statements (");
            msg.append(decimal_string(count).as_str());
            msg.append("). Maximum allowed is 10.");
            ctx.report_string(t.start_byte(node), t.end_byte(node), msg);
        }
    }
}

} // verus!

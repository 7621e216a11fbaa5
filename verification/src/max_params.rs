use vstd::prelude::*;
use crate::diagnostic::{plain, ReportView, RuleContext, Severity};
use vstd::string::StringExecFns;
use crate::text::{decimal, decimal_string};
use crate::rule::Rule;
use crate::tree::{SyntaxTree, lemma_node_span};

verus! {

/// Limits a function to three parameters.
#[derive(Clone, Copy, Debug)]
pub struct MaxParams;

impl Rule for MaxParams {
    open spec fn spec_name(&self) -> Seq<char> {
        "max-params"@
    }

    open spec fn spec_severity(&self) -> Severity {
        Severity::Warning
    }

    open spec fn spec_reports(&self, t: &SyntaxTree, n: int) -> Seq<ReportView> {
        if t.kind_is(n, "formal_parameters") && t.named_child_count(n) > 3 {
            seq![
                plain(
                    t.start(n),
                    t.end(n),
                    "Function has too many parameters ("@ + decimal(t.named_child_count(n) as nat)
                        + "). Maximum allowed is 3."@,
                ),
            ]
        } else {
            Seq::empty()
        }
    }

    proof fn lemma_reports_within(&self, t: &SyntaxTree, n: int) {
        lemma_node_span(t, n);
    }

    fn name(&self) -> &'static str {
        "max-params"
    }

    fn default_severity(&self) -> Severity {
        Severity::Warning
    }

    fn on_node(&self, t: &SyntaxTree, node: usize, ctx: &mut RuleContext) {
        if !t.has_kind(node, "formal_parameters") {
            return;
        }
        let count = t.count_named(node);
        if count > 3 {
            let mut msg = String::from_str("Function has too many parameters (");
            msg.append(decimal_string(count).as_str());
            msg.append("). Maximum allowed is 3.");
            ctx.report_string(t.start_byte(node), t.end_byte(node), msg);
        }
    }
}

} // verus!

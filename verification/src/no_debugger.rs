use vstd::prelude::*;
use vstd::string::StringExecFns;
use crate::diagnostic::{with_fix, Fix, ReportView, RuleContext, Severity, Span};
use crate::rule::Rule;
use crate::tree::{SyntaxTree, lemma_node_span};

verus! {

/// Disallows `debugger` statements, and removes them as its fix.
#[derive(Clone, Copy, Debug)]
pub struct NoDebugger;

impl Rule for NoDebugger {
    open spec fn spec_name(&self) -> Seq<char> {
        "no-debugger"@
    }

    open spec fn spec_severity(&self) -> Severity {
        Severity::Error
    }

    /// A `debugger_statement` is reported over its whole range, with a fix
    /// that replaces that range by nothing.
    open spec fn spec_reports(&self, tree: &SyntaxTree, n: int) -> Seq<ReportView> {
        if tree.kind_is(n, "debugger_statement") {
            seq![
                with_fix(
                    tree.start(n),
                    tree.end(n),
                    "Unexpected 'debugger' statement."@,
                    tree.start(n),
                    tree.end(n),
                    Seq::empty(),
                ),
            ]
        } else {
            Seq::empty()
        }
    }

    proof fn lemma_reports_within(&self, tree: &SyntaxTree, n: int) {
        lemma_node_span(tree, n);
    }

    fn name(&self) -> &'static str {
        "no-debugger"
    }

    fn default_severity(&self) -> Severity {
        Severity::Error
    }

    fn on_node(&self, tree: &SyntaxTree, node: usize, ctx: &mut RuleContext) {
        if tree.has_kind(node, "debugger_statement") {
            let start = tree.start_byte(node);
            let end = tree.end_byte(node);
            ctx.report_with_fix(
                start,
                end,
                "Unexpected 'debugger' statement.",
                Fix { range: Span { start, end }, text: String::new() },
            );
        } else {
            assert(old(ctx)@ + Seq::<ReportView>::empty() =~= old(ctx)@);
        }
    }
}

} // verus!

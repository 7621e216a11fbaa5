use vstd::prelude::*;
use crate::tree::lemma_field_valid;
use crate::diagnostic::{plain, with_fix, Fix, ReportView, RuleContext, Severity, Span};
use crate::rule::Rule;
use crate::tree::{SyntaxTree, lemma_node_span};

verus! {

/// Disallows initialising a variable to `undefined`; the fix removes the
/// initialiser.
#[derive(Clone, Copy, Debug)]
pub struct NoUndefInit;

impl Rule for NoUndefInit {
    open spec fn spec_name(&self) -> Seq<char> {
        "no-undef-init"@
    }

    open spec fn spec_severity(&self) -> Severity {
        Severity::Warning
    }

    open spec fn spec_reports(&self, t: &SyntaxTree, n: int) -> Seq<ReportView> {
        match t.field(n, "value") {
            Some(v) if t.kind_is(n, "variable_declarator") && t.kind_is(v as int, "undefined") => match t.field(n, "name") {
                Some(nm) => seq![
                    with_fix(
                        t.start(n),
                        t.end(n),
                        "It's not necessary to initialize to undefined."@,
                        t.end(nm as int),
                        t.end(v as int),
                        Seq::empty(),
                    ),
                ],
                None => seq![plain(t.start(n), t.end(n), "It's not necessary to initialize to undefined."@)],
            },
            _ => Seq::empty(),
        }
    }

    proof fn lemma_reports_within(&self, t: &SyntaxTree, n: int) {
        lemma_node_span(t, n);
        lemma_field_valid(t, n, "value"@, 0);
        lemma_field_valid(t, n, "name"@, 0);
        if let Some(v) = t.field(n, "value") {
            lemma_node_span(t, v as int);
        }
        if let Some(nm) = t.field(n, "name") {
            lemma_node_span(t, nm as int);
        }
    }

    fn name(&self) -> &'static str {
        "no-undef-init"
    }

    fn default_severity(&self) -> Severity {
        Severity::Warning
    }

    fn on_node(&self, t: &SyntaxTree, node: usize, ctx: &mut RuleContext) {
        if !t.has_kind(node, "variable_declarator") {
            return;
        }
        if let Some(value) = t.child_by_field_name(node, "value") {
            if t.has_kind(value, "undefined") {
                let start = t.start_byte(node);
                let end = t.end_byte(node);
                if let Some(name_node) = t.child_by_field_name(node, "name") {
                    let name_end = t.end_byte(name_node);
                    ctx.report_with_fix(
                        start,
                        end,
                        "It's not necessary to initialize to undefined.",
                        Fix { range: Span { start: name_end, end: t.end_byte(value) }, text: String::new() },
                    );
                } else {
                    ctx.report(start, end, "It's not necessary to initialize to undefined.");
                }
            }
        }
    }
}

} // verus!

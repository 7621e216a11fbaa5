use vstd::prelude::*;
use crate::diagnostic::{all_within, lemma_each_node_within};
use crate::helpers::lemma_named_children_valid;
use crate::diagnostic::{plain, ReportView, RuleContext, Severity};
use crate::diagnostic::{each_node, lemma_each_node_all, lemma_each_node_step};
use crate::rule::Rule;
use crate::tree::{SyntaxTree, lemma_node_span};

verus! {

/// Disallows lexical, function and class declarations directly in a
/// `case` or `default` clause.
#[derive(Clone, Copy, Debug)]
pub struct NoCaseDeclarations;

impl Rule for NoCaseDeclarations {
    open spec fn spec_name(&self) -> Seq<char> {
        "no-case-declarations"@
    }

    open spec fn spec_severity(&self) -> Severity {
        Severity::Error
    }

    open spec fn spec_reports(&self, t: &SyntaxTree, n: int) -> Seq<ReportView> {
        if t.kind_is(n, "switch_case") || t.kind_is(n, "switch_default") {
            each_node(t.named_children(n), |c: usize| declaration_report(t, c as int))
        } else {
            Seq::empty()
        }
    }

    proof fn lemma_reports_within(&self, t: &SyntaxTree, n: int) {
        lemma_named_children_valid(t, n);
        let cs = t.named_children(n);
        let f = |c: usize| declaration_report(t, c as int);
        assert forall|i: int| 0 <= i < cs.len() implies all_within(
            #[trigger] f(cs[i]),
            t.bytes().len() as int,
        ) by {
            lemma_node_span(t, cs[i] as int);
        }
        lemma_each_node_within(cs, f, t.bytes().len() as int);
    }

    fn name(&self) -> &'static str {
        "no-case-declarations"
    }

    fn default_severity(&self) -> Severity {
        Severity::Error
    }

    fn on_node(&self, t: &SyntaxTree, node: usize, ctx: &mut RuleContext) {
        if !(t.has_kind(node, "switch_case") || t.has_kind(node, "switch_default")) {
            return;
        }
        let children = t.named_children_of(node);
        let ghost before = ctx@;
        let ghost f = |c: usize| declaration_report(t, c as int);
        let mut i: usize = 0;
        while i < children.len()
            invariant
                t.wf(),
                children@ == t.named_children(node as int),
                forall|j: int| 0 <= j < children@.len() ==> node < #[trigger] children@[j] < t.len(),
                0 <= i <= children@.len(),
                f == (|c: usize| declaration_report(t, c as int)),
                ctx@ == before + each_node(children@.subrange(0, i as int), f),
            decreases children.len() - i,
        {
            let child = children[i];
            proof {
                lemma_each_node_step(children@, f, i as int);
            }
            if t.has_kind(child, "lexical_declaration") || t.has_kind(child, "function_declaration")
                || t.has_kind(child, "class_declaration") {
                ctx.report(
                    t.start_byte(child),
                    t.end_byte(child),
                    "Unexpected lexical declaration in case clause.",
                );
            }
            i = i + 1;
        }
        proof {
            lemma_each_node_all(children@, f);
        }
    }
}

/// The report for child `c` when it is a lexical, function or class declaration.
pub open spec fn declaration_report(t: &SyntaxTree, c: int) -> Seq<ReportView> {
    if t.kind_is(c, "lexical_declaration") || t.kind_is(c, "function_declaration") || t.kind_is(
        c,
        "class_declaration",
    ) {
        seq![plain(t.start(c), t.end(c), "Unexpected lexical declaration in case clause."@)]
    } else {
        Seq::empty()
    }
}

} // verus!

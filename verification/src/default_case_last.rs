use vstd::prelude::*;
use crate::helpers::lemma_named_children_valid;
use crate::diagnostic::{all_within, lemma_concat_within};
use crate::diagnostic::{plain, ReportView, RuleContext, Severity};
use crate::rule::Rule;
use crate::tree::{SyntaxTree, lemma_node_span};

verus! {

/// Requires the `default` clause of a `switch` to come last.
#[derive(Clone, Copy, Debug)]
pub struct DefaultCaseLast;

impl Rule for DefaultCaseLast {
    open spec fn spec_name(&self) -> Seq<char> {
        "default-case-last"@
    }

    open spec fn spec_severity(&self) -> Severity {
        Severity::Warning
    }

    open spec fn spec_reports(&self, t: &SyntaxTree, n: int) -> Seq<ReportView> {
        if t.kind_is(n, "switch_body") {
            misplaced_defaults(t, t.named_children(n), t.named_children(n).len() as int)
        } else {
            Seq::empty()
        }
    }

    proof fn lemma_reports_within(&self, t: &SyntaxTree, n: int) {
        lemma_named_children_valid(t, n);
        let cs = t.named_children(n);
        assert forall|i: int| 0 <= i < cs.len() implies t.valid_node(#[trigger] cs[i] as int) by {}
        lemma_defaults_within(t, cs, cs.len() as int);
    }

    fn name(&self) -> &'static str {
        "default-case-last"
    }

    fn default_severity(&self) -> Severity {
        Severity::Warning
    }

    fn on_node(&self, t: &SyntaxTree, node: usize, ctx: &mut RuleContext) {
        if !t.has_kind(node, "switch_body") {
            return;
        }
        let cases = t.named_children_of(node);
        let ghost before = ctx@;
        let mut i: usize = 0;
        while i < cases.len()
            invariant
                t.wf(),
                cases@ == t.named_children(node as int),
                forall|j: int| 0 <= j < cases@.len() ==> node < #[trigger] cases@[j] < t.len(),
                0 <= i <= cases@.len(),
                ctx@ == before + misplaced_defaults(t, cases@, i as int),
            decreases cases.len() - i,
        {
            let case = cases[i];
            if t.has_kind(case, "switch_default") && i != cases.len() - 1 {
                ctx.report(t.start_byte(case), t.end_byte(case), "Default clause should be the last clause.");
            }
            i = i + 1;
        }
    }
}

/// Reports for the `default` clauses among the first `k` of `cases` that are
/// not the last clause.
pub open spec fn misplaced_defaults(t: &SyntaxTree, cases: Seq<usize>, k: int) -> Seq<ReportView>
    decreases k,
{
    if k <= 0 {
        Seq::empty()
    } else {
        let c = cases[k - 1] as int;
        misplaced_defaults(t, cases, k - 1) + if t.kind_is(c, "switch_default") && k - 1
            != cases.len() - 1 {
            seq![plain(t.start(c), t.end(c), "Default clause should be the last clause."@)]
        } else {
            Seq::empty()
        }
    }
}

proof fn lemma_defaults_within(t: &SyntaxTree, cases: Seq<usize>, k: int)
    requires
        t.wf(),
        t.bytes().len() <= u32::MAX,
        k <= cases.len(),
        forall|i: int| 0 <= i < cases.len() ==> t.valid_node(#[trigger] cases[i] as int),
    ensures
        all_within(misplaced_defaults(t, cases, k), t.bytes().len() as int),
    decreases k,
{
    if k > 0 {
        lemma_defaults_within(t, cases, k - 1);
        let c = cases[k - 1] as int;
        lemma_node_span(t, c);
        lemma_concat_within(
            misplaced_defaults(t, cases, k - 1),
            if t.kind_is(c, "switch_default") && k - 1 != cases.len() - 1 {
                seq![plain(t.start(c), t.end(c), "Default clause should be the last clause."@)]
            } else {
                Seq::empty()
            },
            t.bytes().len() as int,
        );
    }
}

} // verus!

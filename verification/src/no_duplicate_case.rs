use vstd::prelude::*;
use crate::tree::lemma_field_valid;
use crate::helpers::lemma_named_children_valid;
use crate::diagnostic::{all_within, lemma_concat_within};
use crate::diagnostic::{plain, ReportView, RuleContext, Severity};
use vstd::string::StringExecFns;
use crate::rule::Rule;
use crate::tree::{SyntaxTree, lemma_node_span};

verus! {

/// Disallows a `case` label whose text repeats that of an earlier label in
/// the same `switch`.
#[derive(Clone, Copy, Debug)]
pub struct NoDuplicateCase;

impl Rule for NoDuplicateCase {
    open spec fn spec_name(&self) -> Seq<char> {
        "no-duplicate-case"@
    }

    open spec fn spec_severity(&self) -> Severity {
        Severity::Error
    }

    open spec fn spec_reports(&self, t: &SyntaxTree, n: int) -> Seq<ReportView> {
        if t.kind_is(n, "switch_body") {
            duplicate_cases(t, t.named_children(n), t.named_children(n).len() as int)
        } else {
            Seq::empty()
        }
    }

    proof fn lemma_reports_within(&self, t: &SyntaxTree, n: int) {
        lemma_named_children_valid(t, n);
        let cs = t.named_children(n);
        assert forall|i: int| 0 <= i < cs.len() implies t.valid_node(#[trigger] cs[i] as int) by {}
        lemma_cases_within(t, cs, cs.len() as int);
    }

    fn name(&self) -> &'static str {
        "no-duplicate-case"
    }

    fn default_severity(&self) -> Severity {
        Severity::Error
    }

    fn on_node(&self, t: &SyntaxTree, node: usize, ctx: &mut RuleContext) {
        if !t.has_kind(node, "switch_body") {
            return;
        }
        let cases = t.named_children_of(node);
        let ghost before = ctx@;
        let mut i: usize = 0;
        while i < cases.len()
            invariant
                t.wf(),
                cases@ == t.named_children(node as int),
                forall|j: int| 0 <= j < cases@.len() ==> node < #[trigger] cases@[j] < t.len(),
                0 <= i <= cases@.len(),
                ctx@ == before + duplicate_cases(t, cases@, i as int),
            decreases cases.len() - i,
        {
            if let Some(value) = case_value_of(t, cases[i]) {
                let mut dup = false;
                let mut j: usize = 0;
                while j < i
                    invariant
                        t.wf(),
                        forall|k: int| 0 <= k < cases@.len() ==> node < #[trigger] cases@[k] < t.len(),
                        0 <= j <= i < cases@.len(),
                        t.valid_node(value as int),
                        dup == labelled_before(t, cases@, j as int, t.text(value as int)),
                    decreases i - j,
                {
                    if let Some(w) = case_value_of(t, cases[j]) {
                        if t.same_text(w, value) {
                            dup = true;
                        }
                    }
                    j = j + 1;
                }
                if dup {
                    let mut msg = String::from_str("Duplicate case label '");
                    msg.append(t.text_string(value).as_str());
                    msg.append("'.");
                    ctx.report_string(t.start_byte(value), t.end_byte(value), msg);
                }
            }
            i = i + 1;
        }
    }
}

/// The label of a `case` clause.
pub open spec fn case_value(t: &SyntaxTree, c: int) -> Option<usize> {
    if t.kind_is(c, "switch_case") {
        t.field(c, "value")
    } else {
        None
    }
}

fn case_value_of(t: &SyntaxTree, c: usize) -> (r: Option<usize>)
    requires
        t.wf(),
        t.valid_node(c as int),
    ensures
        r == case_value(t, c as int),
        r matches Some(v) ==> t.valid_node(v as int),
{
    if t.has_kind(c, "switch_case") {
        t.child_by_field_name(c, "value")
    } else {
        None
    }
}

/// One of the first `j` clauses of `cases` has a label with text `text`.
pub open spec fn labelled_before(t: &SyntaxTree, cases: Seq<usize>, j: int, text: Seq<u8>) -> bool {
    exists|k: int|
        0 <= k < j && match case_value(t, #[trigger] cases[k] as int) {
            Some(w) => t.text(w as int) == text,
            None => false,
        }
}

/// Reports for the labels among the first `k` clauses that repeat an earlier label.
pub open spec fn duplicate_cases(t: &SyntaxTree, cases: Seq<usize>, k: int) -> Seq<ReportView>
    decreases k,
{
    if k <= 0 {
        Seq::empty()
    } else {
        duplicate_cases(t, cases, k - 1) + match case_value(t, cases[k - 1] as int) {
            Some(v) if labelled_before(t, cases, k - 1, t.text(v as int)) => seq![
                plain(
                    t.start(v as int),
                    t.end(v as int),
                    "Duplicate case label '"@ + t.text_chars(v as int) + "'."@,
                ),
            ],
            _ => Seq::empty(),
        }
    }
}

proof fn lemma_cases_within(t: &SyntaxTree, cases: Seq<usize>, k: int)
    requires
        t.wf(),
        t.bytes().len() <= u32::MAX,
        k <= cases.len(),
        forall|i: int| 0 <= i < cases.len() ==> t.valid_node(#[trigger] cases[i] as int),
    ensures
        all_within(duplicate_cases(t, cases, k), t.bytes().len() as int),
    decreases k,
{
    if k > 0 {
        lemma_cases_within(t, cases, k - 1);
        let c = cases[k - 1] as int;
        lemma_field_valid(t, c, "value"@, 0);
        if let Some(v) = case_value(t, c) {
            lemma_node_span(t, v as int);
        }
        lemma_concat_within(
            duplicate_cases(t, cases, k - 1),
            match case_value(t, cases[k - 1] as int) {
                Some(v) if labelled_before(t, cases, k - 1, t.text(v as int)) => seq![
                    plain(
                        t.start(v as int),
                        t.end(v as int),
                        "Duplicate case label '"@ + t.text_chars(v as int) + "'."@,
                    ),
                ],
                _ => Seq::empty(),
            },
            t.bytes().len() as int,
        );
    }
}

/// Some clause among the first `j` of `cases`, however far before, is a
/// `case` whose value is written as `text`.
pub open spec fn earlier_label(t: &SyntaxTree, cases: Seq<usize>, j: int, text: Seq<u8>) -> bool {
    exists|i: int|
        #![trigger cases[i]]
        0 <= i < j && t.kind_is(cases[i] as int, "switch_case") && match t.field(
            cases[i] as int,
            "value",
        ) {
            Some(w) => t.text(w as int) == text,
            None => false,
        }
}

/// Clause `j` of a switch adds a report exactly when it is a `case` whose
/// value is written as the value of any earlier `case` of the same switch:
/// the report spans the value and quotes it.
pub proof fn lemma_case_reported(t: &SyntaxTree, cases: Seq<usize>, j: int)
    requires
        0 <= j < cases.len(),
    ensures
        duplicate_cases(t, cases, j + 1) == duplicate_cases(t, cases, j) + match t.field(
            cases[j] as int,
            "value",
        ) {
            Some(v) if t.kind_is(cases[j] as int, "switch_case") && earlier_label(
                t,
                cases,
                j,
                t.text(v as int),
            ) => seq![
                plain(
                    t.start(v as int),
                    t.end(v as int),
                    "Duplicate case label '"@ + t.text_chars(v as int) + "'."@,
                ),
            ],
            _ => Seq::<ReportView>::empty(),
        },
{
    if let Some(v) = t.field(cases[j] as int, "value") {
        let text = t.text(v as int);
        if labelled_before(t, cases, j, text) {
            let k = choose|k: int|
                0 <= k < j && match case_value(t, #[trigger] cases[k] as int) {
                    Some(w) => t.text(w as int) == text,
                    None => false,
                };
            assert(t.kind_is(cases[k] as int, "switch_case"));
        }
        if earlier_label(t, cases, j, text) {
            let i = choose|i: int|
                #![trigger cases[i]]
                0 <= i < j && t.kind_is(cases[i] as int, "switch_case") && match t.field(
                    cases[i] as int,
                    "value",
                ) {
                    Some(w) => t.text(w as int) == text,
                    None => false,
                };
            assert(case_value(t, cases[i] as int) == t.field(cases[i] as int, "value"));
        }
    }
}

} // verus!

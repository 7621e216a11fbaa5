use vstd::prelude::*;
use crate::tree::lemma_field_valid;
use crate::diagnostic::{all_within, lemma_concat_within};
use crate::diagnostic::{plain, ReportView, RuleContext, Severity};
use vstd::string::StringExecFns;
use crate::rule::Rule;
use crate::tree::{SyntaxTree, lemma_node_span};

verus! {

/// Disallows a condition in an `if`-`else if` chain whose text repeats that
/// of an earlier condition in the chain.
#[derive(Clone, Copy, Debug)]
pub struct NoDupeElseIf;

impl Rule for NoDupeElseIf {
    open spec fn spec_name(&self) -> Seq<char> {
        "no-dupe-else-if"@
    }

    open spec fn spec_severity(&self) -> Severity {
        Severity::Error
    }

    open spec fn spec_reports(&self, t: &SyntaxTree, n: int) -> Seq<ReportView> {
        let top = match t.parent(n) {
            Some(p) => !t.kind_is(p as int, "else_clause"),
            None => true,
        };
        if t.kind_is(n, "if_statement") && top {
            let conds = chain_conditions(t, n);
            repeated_conditions(t, conds, conds.len() as int)
        } else {
            Seq::empty()
        }
    }

    proof fn lemma_reports_within(&self, t: &SyntaxTree, n: int) {
        lemma_chain_valid(t, n);
        let conds = chain_conditions(t, n);
        lemma_repeated_within(t, conds, conds.len() as int);
    }

    fn name(&self) -> &'static str {
        "no-dupe-else-if"
    }

    fn default_severity(&self) -> Severity {
        Severity::Error
    }

    fn on_node(&self, t: &SyntaxTree, node: usize, ctx: &mut RuleContext) {
        if !t.has_kind(node, "if_statement") {
            return;
        }
        if let Some(parent) = t.parent_of(node) {
            if t.has_kind(parent, "else_clause") {
                return;
            }
        }
        let mut conditions: Vec<usize> = Vec::new();
        collect_conditions(t, node, &mut conditions);
        let ghost before = ctx@;
        let mut i: usize = 0;
        while i < conditions.len()
            invariant
                t.wf(),
                forall|k: int| 0 <= k < conditions@.len() ==> t.valid_node(#[trigger] conditions@[k] as int),
                0 <= i <= conditions@.len(),
                ctx@ == before + repeated_conditions(t, conditions@, i as int),
            decreases conditions.len() - i,
        {
            let mut j: usize = 0;
            let mut dup = false;
            while j < i
                invariant
                    t.wf(),
                    forall|k: int| 0 <= k < conditions@.len() ==> t.valid_node(#[trigger] conditions@[k] as int),
                    0 <= j <= i < conditions@.len(),
                    dup == condition_before(t, conditions@, j as int, conditions@[i as int] as int),
                decreases i - j,
            {
                if t.same_text(conditions[i], conditions[j]) {
                    dup = true;
                }
                j = j + 1;
            }
            if dup {
                let c = conditions[i];
                ctx.report(
                    t.start_byte(c),
                    t.end_byte(c),
                    "This branch can never execute. Its condition is a duplicate of a previous condition in the if-else-if chain.",
                );
            }
            i = i + 1;
        }
    }
}

/// The conditions of the `if`-`else if` chain that starts at `n`, in order.
pub open spec fn chain_conditions(t: &SyntaxTree, n: int) -> Seq<usize>
    decreases t.len() - n, 0int,
{
    if !t.valid_node(n) || !t.kind_is(n, "if_statement") {
        Seq::empty()
    } else {
        (match t.field(n, "condition") {
            Some(c) => seq![c],
            None => Seq::empty(),
        }) + match t.field(n, "alternative") {
            Some(a) if n < a < t.len() => else_conditions(
                t,
                a as int,
                t.named_children(a as int).len() as int,
            ),
            _ => Seq::empty(),
        }
    }
}

/// The conditions of the chains that start at the `if` statements among the
/// first `k` named children of the `else` clause `a`.
pub open spec fn else_conditions(t: &SyntaxTree, a: int, k: int) -> Seq<usize>
    decreases t.len() - a, k,
{
    if k <= 0 || !t.valid_node(a) {
        Seq::empty()
    } else {
        let c = t.named_children(a)[k - 1];
        else_conditions(t, a, k - 1) + if a < c < t.len() && t.kind_is(c as int, "if_statement") {
            chain_conditions(t, c as int)
        } else {
            Seq::empty()
        }
    }
}

/// Appends the conditions of the chain that starts at `node`.
fn collect_conditions(t: &SyntaxTree, node: usize, out: &mut Vec<usize>)
    requires
        t.wf(),
        t.valid_node(node as int),
        forall|k: int| 0 <= k < old(out)@.len() ==> t.valid_node(#[trigger] old(out)@[k] as int),
    ensures
        final(out)@ == old(out)@ + chain_conditions(t, node as int),
        forall|k: int| 0 <= k < final(out)@.len() ==> t.valid_node(#[trigger] final(out)@[k] as int),
    decreases t.len() - node,
{
    if !t.has_kind(node, "if_statement") {
        return;
    }
    if let Some(cond) = t.child_by_field_name(node, "condition") {
        out.push(cond);
    }
    let ghost with_own = out@;
    if let Some(alt) = t.child_by_field_name(node, "alternative") {
        let kids = t.named_children_of(alt);
        let mut i: usize = 0;
        while i < kids.len()
            invariant
                t.wf(),
                node < alt < t.len(),
                kids@ == t.named_children(alt as int),
                forall|k: int| 0 <= k < kids@.len() ==> alt < #[trigger] kids@[k] < t.len(),
                0 <= i <= kids@.len(),
                out@ == with_own + else_conditions(t, alt as int, i as int),
                forall|k: int| 0 <= k < out@.len() ==> t.valid_node(#[trigger] out@[k] as int),
            decreases kids.len() - i,
        {
            let child = kids[i];
            if t.has_kind(child, "if_statement") {
                collect_conditions(t, child, out);
            }
            i = i + 1;
        }
    }
}

/// One of the first `j` conditions has the same text as condition `c`.
pub open spec fn condition_before(t: &SyntaxTree, conds: Seq<usize>, j: int, c: int) -> bool {
    exists|k: int| 0 <= k < j && t.text(#[trigger] conds[k] as int) == t.text(c)
}

/// Reports for the conditions among the first `k` whose text repeats an
/// earlier condition's.
pub open spec fn repeated_conditions(t: &SyntaxTree, conds: Seq<usize>, k: int) -> Seq<ReportView>
    decreases k,
{
    if k <= 0 {
        Seq::empty()
    } else {
        let c = conds[k - 1] as int;
        repeated_conditions(t, conds, k - 1) + if condition_before(t, conds, k - 1, c) {
            seq![
                plain(
                    t.start(c),
                    t.end(c),
                    "This branch can never execute. Its condition is a duplicate of a previous condition in the if-else-if chain."@,
                ),
            ]
        } else {
            Seq::empty()
        }
    }
}

/// Every condition of a chain is a node of the tree.
proof fn lemma_chain_valid(t: &SyntaxTree, n: int)
    requires
        t.wf(),
    ensures
        forall|i: int|
            0 <= i < chain_conditions(t, n).len() ==> t.valid_node(
                #[trigger] chain_conditions(t, n)[i] as int,
            ),
    decreases t.len() - n, 0int,
{
    if t.valid_node(n) && t.kind_is(n, "if_statement") {
        lemma_field_valid(t, n, "condition"@, 0);
        let first: Seq<usize> = match t.field(n, "condition") {
            Some(c) => seq![c],
            None => Seq::empty(),
        };
        let rest: Seq<usize> = match t.field(n, "alternative") {
            Some(a) if n < a < t.len() => else_conditions(
                t,
                a as int,
                t.named_children(a as int).len() as int,
            ),
            _ => Seq::empty(),
        };
        if let Some(a) = t.field(n, "alternative") {
            if n < a < t.len() {
                lemma_else_valid(t, a as int, t.named_children(a as int).len() as int);
            }
        }
        assert(chain_conditions(t, n) == first + rest);
        assert forall|i: int| 0 <= i < (first + rest).len() implies t.valid_node(
            #[trigger] (first + rest)[i] as int,
        ) by {
            if i < first.len() {
                assert((first + rest)[i] == first[i]);
            } else {
                assert((first + rest)[i] == rest[i - first.len()]);
            }
        }
    }
}

/// Every condition gathered from an `else` clause is a node of the tree.
proof fn lemma_else_valid(t: &SyntaxTree, a: int, k: int)
    requires
        t.wf(),
    ensures
        forall|i: int|
            0 <= i < else_conditions(t, a, k).len() ==> t.valid_node(
                #[trigger] else_conditions(t, a, k)[i] as int,
            ),
    decreases t.len() - a, k,
{
    if k > 0 && t.valid_node(a) {
        lemma_else_valid(t, a, k - 1);
        let c = t.named_children(a)[k - 1];
        let before = else_conditions(t, a, k - 1);
        let more: Seq<usize> = if a < c < t.len() && t.kind_is(c as int, "if_statement") {
            chain_conditions(t, c as int)
        } else {
            Seq::empty()
        };
        if a < c < t.len() && t.kind_is(c as int, "if_statement") {
            lemma_chain_valid(t, c as int);
        }
        assert(else_conditions(t, a, k) == before + more);
        assert forall|i: int| 0 <= i < (before + more).len() implies t.valid_node(
            #[trigger] (before + more)[i] as int,
        ) by {
            if i < before.len() {
                assert((before + more)[i] == before[i]);
            } else {
                assert((before + more)[i] == more[i - before.len()]);
            }
        }
    }
}

proof fn lemma_repeated_within(t: &SyntaxTree, conds: Seq<usize>, k: int)
    requires
        t.wf(),
        t.bytes().len() <= u32::MAX,
        k <= conds.len(),
        forall|i: int| 0 <= i < conds.len() ==> t.valid_node(#[trigger] conds[i] as int),
    ensures
        all_within(repeated_conditions(t, conds, k), t.bytes().len() as int),
    decreases k,
{
    if k > 0 {
        lemma_repeated_within(t, conds, k - 1);
        let c = conds[k - 1] as int;
        lemma_node_span(t, c);
        lemma_concat_within(
            repeated_conditions(t, conds, k - 1),
            if condition_before(t, conds, k - 1, c) {
                seq![
                    plain(
                        t.start(c),
                        t.end(c),
                        "This branch can never execute. Its condition is a duplicate of a previous condition in the if-else-if chain."@,
                    ),
                ]
            } else {
                Seq::empty()
            },
            t.bytes().len() as int,
        );
    }
}

} // verus!

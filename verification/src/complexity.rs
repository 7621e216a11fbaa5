use vstd::prelude::*;
use crate::diagnostic::{plain, ReportView, RuleContext, Severity};
use vstd::string::StringExecFns;
use crate::helpers::{function_like, is_function_like, is_nested_function, nested_function};
use crate::text::{decimal, decimal_string};
use crate::rule::Rule;
use crate::tree::{SyntaxTree, lemma_child_valid, lemma_node_span};

verus! {

/// Limits the cyclomatic complexity of a function to 20: one, plus one for
/// each branching statement, `case`, `catch` and conditional expression
/// within it, not counting nested functions.
#[derive(Clone, Copy, Debug)]
pub struct Complexity;

impl Rule for Complexity {
    open spec fn spec_name(&self) -> Seq<char> {
        "complexity"@
    }

    open spec fn spec_severity(&self) -> Severity {
        Severity::Warning
    }

    open spec fn spec_reports(&self, t: &SyntaxTree, n: int) -> Seq<ReportView> {
        if function_like(t, n) && complexity_of(t, n) > 20 {
            seq![
                plain(
                    t.start(n),
                    t.end(n),
                    "Function has a complexity of "@ + decimal(complexity_of(t, n) as nat)
                        + ". Maximum allowed is 20."@,
                ),
            ]
        } else {
            Seq::empty()
        }
    }

    proof fn lemma_reports_within(&self, t: &SyntaxTree, n: int) {
        lemma_node_span(t, n);
    }

    fn name(&self) -> &'static str {
        "complexity"
    }

    fn default_severity(&self) -> Severity {
        Severity::Warning
    }

    fn on_node(&self, t: &SyntaxTree, node: usize, ctx: &mut RuleContext) {
        if !is_function_like(t, node) {
            return;
        }
        let complexity = compute_complexity(t, node);
        if complexity > 20 {
            let mut msg = String::from_str("Function has a complexity of ");
            msg.append(decimal_string(complexity).as_str());
            msg.append(". Maximum allowed is 20.");
            ctx.report_string(t.start_byte(node), t.end_byte(node), msg);
        }
    }
}

/// Statements and expressions that add a path through a function.
pub open spec fn decision_point(t: &SyntaxTree, n: int) -> bool {
    ||| t.kind_is(n, "if_statement")
    ||| t.kind_is(n, "for_statement")
    ||| t.kind_is(n, "for_in_statement")
    ||| t.kind_is(n, "while_statement")
    ||| t.kind_is(n, "do_statement")
    ||| t.kind_is(n, "switch_case")
    ||| t.kind_is(n, "catch_clause")
    ||| t.kind_is(n, "ternary_expression")
}

fn is_decision_point(t: &SyntaxTree, n: usize) -> (r: bool)
    requires
        t.valid_node(n as int),
    ensures
        r == decision_point(t, n as int),
{
    t.has_kind(n, "if_statement") || t.has_kind(n, "for_statement") || t.has_kind(
        n,
        "for_in_statement",
    ) || t.has_kind(n, "while_statement") || t.has_kind(n, "do_statement") || t.has_kind(
        n,
        "switch_case",
    ) || t.has_kind(n, "catch_clause") || t.has_kind(n, "ternary_expression")
}

/// The decision points below `n`; below the function itself (`root`) nested
/// functions are skipped. Sums saturate at `usize::MAX`.
pub open spec fn subtree_complexity(t: &SyntaxTree, n: int, root: bool) -> usize
    decreases t.len() - n, t.children(n).len() + 1,
{
    if !t.valid_node(n) {
        0
    } else {
        children_complexity(t, n, root, t.children(n).len() as int)
    }
}

/// The decision points within the first `k` children of `n` and below them.
pub open spec fn children_complexity(t: &SyntaxTree, n: int, root: bool, k: int) -> usize
    decreases t.len() - n, k,
{
    if k <= 0 || !t.valid_node(n) {
        0
    } else {
        let c = t.children(n)[k - 1];
        let here: usize = if n < c < t.len() && (root || !nested_function(t, c as int)) {
            (if decision_point(t, c as int) {
                1usize
            } else {
                0usize
            }).saturating_add(subtree_complexity(t, c as int, false))
        } else {
            0
        };
        children_complexity(t, n, root, k - 1).saturating_add(here)
    }
}

/// The complexity of function `n`.
pub open spec fn complexity_of(t: &SyntaxTree, n: int) -> usize {
    1usize.saturating_add(subtree_complexity(t, n, true))
}

fn add_complexity(t: &SyntaxTree, n: usize, root: bool) -> (r: usize)
    requires
        t.wf(),
        t.valid_node(n as int),
    ensures
        r == subtree_complexity(t, n as int, root),
    decreases t.len() - n,
{
    proof {
        assert(t.node_wf(n as int));
    }
    let kids = &t.nodes[n].children;
    let mut total: usize = 0;
    let mut j: usize = 0;
    while j < kids.len()
        invariant
            t.wf(),
            t.valid_node(n as int),
            kids@ == t.children(n as int),
            t.node_wf(n as int),
            0 <= j <= kids@.len(),
            total == children_complexity(t, n as int, root, j as int),
        decreases kids.len() - j,
    {
        let child = kids[j];
        let here: usize = if root || !is_nested_function(t, child) {
            let own: usize = if is_decision_point(t, child) {
                1
            } else {
                0
            };
            own.saturating_add(add_complexity(t, child, false))
        } else {
            0
        };
        total = total.saturating_add(here);
        j = j + 1;
    }
    total
}

/// The complexity of function `n`: one plus its decision points.
fn compute_complexity(t: &SyntaxTree, n: usize) -> (r: usize)
    requires
        t.wf(),
        t.valid_node(n as int),
    ensures
        r == complexity_of(t, n as int),
{
    1usize.saturating_add(add_complexity(t, n, true))
}

/// The statements and expressions that open a path through a function:
/// `if`, the loops, `case` clauses, `catch` clauses and conditional
/// expressions.
pub open spec fn branching(t: &SyntaxTree, c: int) -> bool {
    ||| t.kind_is(c, "if_statement")
    ||| t.kind_is(c, "for_statement")
    ||| t.kind_is(c, "for_in_statement")
    ||| t.kind_is(c, "while_statement")
    ||| t.kind_is(c, "do_statement")
    ||| t.kind_is(c, "switch_case")
    ||| t.kind_is(c, "catch_clause")
    ||| t.kind_is(c, "ternary_expression")
}

/// How many of the first `k` nodes of `cs` open a path.
pub open spec fn branch_count(t: &SyntaxTree, cs: Seq<usize>, k: int) -> nat
    decreases k,
{
    if k <= 0 {
        0
    } else {
        branch_count(t, cs, k - 1) + if branching(t, cs[k - 1] as int) {
            1nat
        } else {
            0nat
        }
    }
}

proof fn lemma_leaves_count(t: &SyntaxTree, b: int, k: int)
    requires
        t.wf(),
        t.valid_node(b),
        0 <= k <= t.children(b).len(),
        t.children(b).len() < usize::MAX,
        forall|j: int|
            0 <= j < t.children(b).len() ==> t.children(#[trigger] t.children(b)[j] as int).len()
                == 0 && !nested_function(t, t.children(b)[j] as int),
    ensures
        children_complexity(t, b, false, k) == branch_count(t, t.children(b), k),
        branch_count(t, t.children(b), k) <= k,
    decreases k,
{
    if k > 0 {
        lemma_leaves_count(t, b, k - 1);
        lemma_child_valid(t, b, k - 1);
        let c = t.children(b)[k - 1] as int;
        assert(t.children(c).len() == 0);
        assert(children_complexity(t, c, false, 0) == 0);
        assert(subtree_complexity(t, c, false) == 0);
        assert(decision_point(t, c) == branching(t, c));
        let prev = children_complexity(t, b, false, k - 1);
        let here: usize = if decision_point(t, c) {
            1usize
        } else {
            0usize
        };
        assert(here.saturating_add(0usize) == here);
        assert(prev.saturating_add(here) == prev + here);
    }
}

/// A function declaration whose one child is a block of statements with no
/// children of their own has complexity one plus the number of those
/// statements that open a path (each `if`, loop, `case`, `catch` and
/// conditional counting exactly one), and is reported exactly when that
/// exceeds 20.
pub proof fn lemma_complexity_counts_branches(t: &SyntaxTree, n: int)
    requires
        t.wf(),
        t.valid_node(n),
        t.kind_is(n, "function_declaration"),
        t.children(n).len() == 1,
        !branching(t, t.children(n)[0] as int),
        forall|j: int|
            0 <= j < t.children(t.children(n)[0] as int).len() ==> t.children(
                #[trigger] t.children(t.children(n)[0] as int)[j] as int,
            ).len() == 0 && !nested_function(t, t.children(t.children(n)[0] as int)[j] as int),
        t.children(t.children(n)[0] as int).len() < usize::MAX,
    ensures
        complexity_of(t, n) == 1 + branch_count(
            t,
            t.children(t.children(n)[0] as int),
            t.children(t.children(n)[0] as int).len() as int,
        ),
        (Complexity.spec_reports(t, n).len() > 0) == (1 + branch_count(
            t,
            t.children(t.children(n)[0] as int),
            t.children(t.children(n)[0] as int).len() as int,
        ) > 20),
{
    lemma_child_valid(t, n, 0);
    let b = t.children(n)[0] as int;
    let k = t.children(b).len() as int;
    lemma_leaves_count(t, b, k);
    assert(children_complexity(t, b, false, k) == subtree_complexity(t, b, false));
    assert(!decision_point(t, b));
    assert(children_complexity(t, n, true, 0) == 0);
}

/// What the first `k` children of `m` add, counted one level at a time: a
/// nested function adds nothing; any other child adds one if it opens a path,
/// and what it holds below it.
pub open spec fn children_sum(t: &SyntaxTree, m: int, k: int) -> int
    decreases k,
{
    if k <= 0 {
        0
    } else {
        let c = t.children(m)[k - 1] as int;
        children_sum(t, m, k - 1) + if nested_function(t, c) {
            0
        } else {
            (if branching(t, c) {
                1int
            } else {
                0int
            }) + subtree_complexity(t, c, false) as int
        }
    }
}

proof fn lemma_children_sum_grows(t: &SyntaxTree, m: int, k: int)
    requires
        0 <= k,
    ensures
        children_sum(t, m, k) >= 0,
        k > 0 ==> children_sum(t, m, k) >= children_sum(t, m, k - 1),
    decreases k,
{
    if k > 0 {
        lemma_children_sum_grows(t, m, k - 1);
    }
}

proof fn lemma_children_sum_prefix(t: &SyntaxTree, m: int, k: int, n: int)
    requires
        0 <= k <= n,
    ensures
        children_sum(t, m, k) <= children_sum(t, m, n),
    decreases n - k,
{
    if k < n {
        lemma_children_sum_prefix(t, m, k, n - 1);
        lemma_children_sum_grows(t, m, n);
    }
}

proof fn lemma_sum_upto(t: &SyntaxTree, m: int, k: int)
    requires
        t.wf(),
        t.valid_node(m),
        0 <= k <= t.children(m).len(),
        children_sum(t, m, t.children(m).len() as int) < usize::MAX,
    ensures
        children_complexity(t, m, false, k) == children_sum(t, m, k),
    decreases k,
{
    if k > 0 {
        lemma_sum_upto(t, m, k - 1);
        lemma_child_valid(t, m, k - 1);
        lemma_children_sum_prefix(t, m, k, t.children(m).len() as int);
        lemma_children_sum_grows(t, m, k);
        let c = t.children(m)[k - 1] as int;
        let own: usize = if decision_point(t, c) {
            1usize
        } else {
            0usize
        };
        assert(decision_point(t, c) == branching(t, c));
        let below = subtree_complexity(t, c, false);
        let prev = children_complexity(t, m, false, k - 1);
        if !nested_function(t, c) {
            assert(own + below <= children_sum(t, m, k) - children_sum(t, m, k - 1));
            assert(own.saturating_add(below) == own + below);
            assert(prev.saturating_add(own.saturating_add(below)) == prev + own + below);
        } else {
            assert(prev.saturating_add(0usize) == prev);
        }
    }
}

/// Below the function itself, each node adds up its children: a nested
/// function adds nothing, and any other child adds one if it opens a path
/// plus whatever it holds below it, however deep.
pub proof fn lemma_complexity_adds_up(t: &SyntaxTree, m: int)
    requires
        t.wf(),
        t.valid_node(m),
        children_sum(t, m, t.children(m).len() as int) < usize::MAX,
    ensures
        subtree_complexity(t, m, false) == children_sum(t, m, t.children(m).len() as int),
{
    lemma_sum_upto(t, m, t.children(m).len() as int);
}

} // verus!

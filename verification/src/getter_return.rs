use vstd::prelude::*;
use crate::diagnostic::{plain, ReportView, RuleContext, Severity};
use vstd::string::StringExecFns;
use crate::helpers::{is_nested_function, nested_function};
use crate::rule::Rule;
use crate::tree::{SyntaxTree, lemma_node_span};

verus! {

/// Requires getters to return a value: a getter's body must hold a
/// `return` with a value outside any nested function.
#[derive(Clone, Copy, Debug)]
pub struct GetterReturn;

impl Rule for GetterReturn {
    open spec fn spec_name(&self) -> Seq<char> {
        "getter-return"@
    }

    open spec fn spec_severity(&self) -> Severity {
        Severity::Error
    }

    open spec fn spec_reports(&self, t: &SyntaxTree, n: int) -> Seq<ReportView> {
        match t.field(n, "body") {
            Some(b) if t.kind_is(n, "method_definition") && getter(t, n) && !returns_value(t, b as int) => seq![
                plain(t.start(n), t.end(n), "Expected to return a value in getter."@),
            ],
            _ => Seq::empty(),
        }
    }

    proof fn lemma_reports_within(&self, t: &SyntaxTree, n: int) {
        lemma_node_span(t, n);
    }

    fn name(&self) -> &'static str {
        "getter-return"
    }

    fn default_severity(&self) -> Severity {
        Severity::Error
    }

    fn on_node(&self, t: &SyntaxTree, node: usize, ctx: &mut RuleContext) {
        if !t.has_kind(node, "method_definition") {
            return;
        }
        if !is_getter(t, node) {
            return;
        }
        if let Some(body) = t.child_by_field_name(node, "body") {
            if !has_return_value(t, body) {
                ctx.report(t.start_byte(node), t.end_byte(node), "Expected to return a value in getter.");
            }
        }
    }
}

/// A method with a `get` keyword among its children.
pub open spec fn getter(t: &SyntaxTree, n: int) -> bool {
    exists|j: int| 0 <= j < t.children(n).len() && t.kind_is(#[trigger] t.children(n)[j] as int, "get")
}

fn is_getter(t: &SyntaxTree, n: usize) -> (r: bool)
    requires
        t.wf(),
        t.valid_node(n as int),
    ensures
        r == getter(t, n as int),
{
    proof {
        assert(t.node_wf(n as int));
    }
    let kids = &t.nodes[n].children;
    let mut j: usize = 0;
    while j < kids.len()
        invariant
            t.wf(),
            kids@ == t.children(n as int),
            t.node_wf(n as int),
            0 <= j <= kids@.len(),
            forall|k: int| 0 <= k < j ==> !t.kind_is(#[trigger] kids@[k] as int, "get"),
        decreases kids.len() - j,
    {
        if t.has_kind(kids[j], "get") {
            return true;
        }
        j = j + 1;
    }
    false
}

/// The subtree below `n` holds a `return` with a value, looking into nested
/// functions not at all.
pub open spec fn returns_value(t: &SyntaxTree, n: int) -> bool
    decreases t.len() - n, t.children(n).len() + 1,
{
    t.valid_node(n) && child_returns(t, n, t.children(n).len() as int)
}

/// One of the first `k` children of `n` is a `return` with a value or, not
/// being a nested function, holds one.
pub open spec fn child_returns(t: &SyntaxTree, n: int, k: int) -> bool
    decreases t.len() - n, k,
{
    if k <= 0 || !t.valid_node(n) {
        false
    } else {
        let c = t.children(n)[k - 1];
        child_returns(t, n, k - 1) || (n < c < t.len() && ((t.kind_is(c as int, "return_statement")
            && t.named_child_count(c as int) > 0) || (!nested_function(t, c as int)
            && returns_value(t, c as int))))
    }
}

proof fn lemma_child_returns_grows(t: &SyntaxTree, n: int, k: int, m: int)
    requires
        k <= m,
        child_returns(t, n, k),
    ensures
        child_returns(t, n, m),
    decreases m - k,
{
    if k < m {
        lemma_child_returns_grows(t, n, k, m - 1);
    }
}

/// Whether the subtree below `n` holds a `return` with a value.
fn has_return_value(t: &SyntaxTree, n: usize) -> (r: bool)
    requires
        t.wf(),
        t.valid_node(n as int),
    ensures
        r == returns_value(t, n as int),
    decreases t.len() - n,
{
    proof {
        assert(t.node_wf(n as int));
    }
    let kids = &t.nodes[n].children;
    let mut j: usize = 0;
    while j < kids.len()
        invariant
            t.wf(),
            t.valid_node(n as int),
            kids@ == t.children(n as int),
            t.node_wf(n as int),
            0 <= j <= kids@.len(),
            !child_returns(t, n as int, j as int),
        decreases kids.len() - j,
    {
        let child = kids[j];
        if t.has_kind(child, "return_statement") && t.count_named(child) > 0 {
            proof {
                lemma_child_returns_grows(t, n as int, j + 1, kids@.len() as int);
            }
            return true;
        }
        if !is_nested_function(t, child) {
            if has_return_value(t, child) {
                proof {
                    lemma_child_returns_grows(t, n as int, j + 1, kids@.len() as int);
                }
                return true;
            }
        }
        j = j + 1;
    }
    false
}

} // verus!

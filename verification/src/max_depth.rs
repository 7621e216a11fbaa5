use vstd::prelude::*;
use crate::diagnostic::{plain, ReportView, RuleContext, Severity};
use vstd::string::StringExecFns;
use crate::helpers::{function_like, is_function_like, is_nesting_statement, nesting_statement};
use crate::text::{decimal, decimal_string};
use crate::rule::Rule;
use crate::tree::{SyntaxTree, lemma_node_span};

verus! {

/// Limits the nesting of `if`, loop and `switch` statements within a
/// function to four levels.
#[derive(Clone, Copy, Debug)]
pub struct MaxDepth;

impl Rule for MaxDepth {
    open spec fn spec_name(&self) -> Seq<char> {
        "max-depth"@
    }

    open spec fn spec_severity(&self) -> Severity {
        Severity::Warning
    }

    open spec fn spec_reports(&self, t: &SyntaxTree, n: int) -> Seq<ReportView> {
        if nesting_statement(t, n) && 1 + nesting_above(t, t.parent(n)) > 4 {
            seq![
                plain(
                    t.start(n),
                    t.end(n),
                    "Blocks are nested too deeply ("@ + decimal((1 + nesting_above(t, t.parent(n))) as nat)
                        + ")."@,
                ),
            ]
        } else {
            Seq::empty()
        }
    }

    proof fn lemma_reports_within(&self, t: &SyntaxTree, n: int) {
        lemma_node_span(t, n);
    }

    fn name(&self) -> &'static str {
        "max-depth"
    }

    fn default_severity(&self) -> Severity {
        Severity::Warning
    }

    fn on_node(&self, t: &SyntaxTree, node: usize, ctx: &mut RuleContext) {
        if !is_nesting_statement(t, node) {
            return;
        }
        let depth = nesting_depth(t, node);
        if depth > 4 {
            let mut msg = String::from_str("Blocks are nested too deeply (");
            msg.append(decimal_string(depth).as_str());
            msg.append(").");
            ctx.report_string(t.start_byte(node), t.end_byte(node), msg);
        }
    }
}

/// The number of nesting statements at `p` and above it, up to the nearest
/// enclosing function.
pub open spec fn nesting_above(t: &SyntaxTree, p: Option<usize>) -> nat
    decreases
            match p {
                Some(q) => q as int + 1,
                None => 0,
            },
{
    match p {
        Some(q) => if !t.valid_node(q as int) {
            0
        } else {
            (if nesting_statement(t, q as int) {
                1nat
            } else {
                0nat
            }) + if function_like(t, q as int) {
                0nat
            } else {
                match t.parent(q as int) {
                    Some(r) if r < q => nesting_above(t, Some(r)),
                    _ => 0nat,
                }
            }
        },
        None => 0,
    }
}

proof fn lemma_nesting_bound(t: &SyntaxTree, p: Option<usize>)
    ensures
        nesting_above(t, p) <= match p {
            Some(q) => q as int + 1,
            None => 0,
        },
    decreases
            match p {
                Some(q) => q as int + 1,
                None => 0,
            },
{
    if let Some(q) = p {
        if t.valid_node(q as int) && !function_like(t, q as int) {
            if let Some(r) = t.parent(q as int) {
                if r < q {
                    lemma_nesting_bound(t, Some(r));
                }
            }
        }
    }
}

/// How deeply statement `node` is nested within its function.
fn nesting_depth(t: &SyntaxTree, node: usize) -> (r: usize)
    requires
        t.wf(),
        t.valid_node(node as int),
    ensures
        r == 1 + nesting_above(t, t.parent(node as int)),
{
    let mut depth: usize = 1;
    let mut current = t.parent_of(node);
    let ghost total = 1 + nesting_above(t, t.parent(node as int));
    let count = t.node_count();
    proof {
        lemma_nesting_bound(t, current);
    }
    while current.is_some()
        invariant_except_break
            depth + nesting_above(t, current) == total,
        invariant
            t.wf(),
            current matches Some(c) ==> t.valid_node(c as int),
            total <= node + 1,
            node < usize::MAX,
        ensures
            depth == total,
        decreases match current {
            Some(c) => c as int + 1,
            None => 0,
        },
    {
        let p = current.unwrap();
        if is_nesting_statement(t, p) {
            depth = depth + 1;
        }
        if is_function_like(t, p) {
            break;
        }
        current = t.parent_of(p);
    }
    depth
}

} // verus!

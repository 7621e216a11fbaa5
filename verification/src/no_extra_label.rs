use vstd::prelude::*;
use crate::tree::lemma_field_valid;
use crate::diagnostic::{plain, ReportView, RuleContext, Severity};
use vstd::string::StringExecFns;
use crate::rule::Rule;
use crate::tree::{SyntaxTree, lemma_node_span};

verus! {

/// Disallows a label on `break` or `continue` that names the innermost
/// enclosing loop or switch, where the label changes nothing.
#[derive(Clone, Copy, Debug)]
pub struct NoExtraLabel;

impl Rule for NoExtraLabel {
    open spec fn spec_name(&self) -> Seq<char> {
        "no-extra-label"@
    }

    open spec fn spec_severity(&self) -> Severity {
        Severity::Warning
    }

    open spec fn spec_reports(&self, t: &SyntaxTree, n: int) -> Seq<ReportView> {
        if !(t.kind_is(n, "break_statement") || t.kind_is(n, "continue_statement")) {
            Seq::empty()
        } else {
            match (t.field(n, "label"), nearest_breakable(t, t.parent(n))) {
                (Some(l), Some(p)) if labelled_by(t, p as int, t.text(l as int)) => seq![
                    plain(
                        t.start(l as int),
                        t.end(l as int),
                        "This label '"@ + t.text_chars(l as int) + "' is unnecessary."@,
                    ),
                ],
                _ => Seq::empty(),
            }
        }
    }

    proof fn lemma_reports_within(&self, t: &SyntaxTree, n: int) {
        lemma_field_valid(t, n, "label"@, 0);
        if let Some(l) = t.field(n, "label") {
            lemma_node_span(t, l as int);
        }
    }

    fn name(&self) -> &'static str {
        "no-extra-label"
    }

    fn default_severity(&self) -> Severity {
        Severity::Warning
    }

    fn on_node(&self, t: &SyntaxTree, node: usize, ctx: &mut RuleContext) {
        if !(t.has_kind(node, "break_statement") || t.has_kind(node, "continue_statement")) {
            return;
        }
        let label = match t.child_by_field_name(node, "label") {
            Some(l) => l,
            None => return,
        };
        let mut current = t.parent_of(node);
        while current.is_some()
            invariant
                t.wf(),
                current matches Some(c) ==> t.valid_node(c as int),
                nearest_breakable(t, t.parent(node as int)) == nearest_breakable(t, current),
                t.valid_node(node as int),
                t.valid_node(label as int),
                t.field(node as int, "label") == Some(label),
                t.kind_is(node as int, "break_statement") || t.kind_is(node as int, "continue_statement"),
                ctx@ == old(ctx)@,
            decreases match current {
                Some(c) => c as int + 1,
                None => 0,
            },
        {
            let p = current.unwrap();
            if is_breakable(t, p) {
                if let Some(gp) = t.parent_of(p) {
                    if t.has_kind(gp, "labeled_statement") {
                        if let Some(lbl) = t.child_by_field_name(gp, "label") {
                            if t.same_text(lbl, label) {
                                let mut msg = String::from_str("This label '");
                                msg.append(t.text_string(label).as_str());
                                msg.append("' is unnecessary.");
                                ctx.report_string(t.start_byte(label), t.end_byte(label), msg);
                            }
                        }
                    }
                }
                return;
            }
            current = t.parent_of(p);
        }
    }
}

/// Loops and switches, the statements that `break` can leave.
pub open spec fn breakable(t: &SyntaxTree, n: int) -> bool {
    ||| t.kind_is(n, "for_statement")
    ||| t.kind_is(n, "for_in_statement")
    ||| t.kind_is(n, "while_statement")
    ||| t.kind_is(n, "do_statement")
    ||| t.kind_is(n, "switch_statement")
}

fn is_breakable(t: &SyntaxTree, n: usize) -> (r: bool)
    requires
        t.valid_node(n as int),
    ensures
        r == breakable(t, n as int),
{
    t.has_kind(n, "for_statement") || t.has_kind(n, "for_in_statement") || t.has_kind(
        n,
        "while_statement",
    ) || t.has_kind(n, "do_statement") || t.has_kind(n, "switch_statement")
}

/// The first loop or switch at `p` or above it.
pub open spec fn nearest_breakable(t: &SyntaxTree, p: Option<usize>) -> Option<usize>
    decreases
            match p {
                Some(q) => q as int + 1,
                None => 0,
            },
{
    match p {
        Some(q) => if !t.valid_node(q as int) {
            None
        } else if breakable(t, q as int) {
            Some(q)
        } else {
            match t.parent(q as int) {
                Some(r) if r < q => nearest_breakable(t, Some(r)),
                _ => None,
            }
        },
        None => None,
    }
}

/// Statement `p` stands directly in a labelled statement whose label has text
/// `label`.
pub open spec fn labelled_by(t: &SyntaxTree, p: int, label: Seq<u8>) -> bool {
    match t.parent(p) {
        Some(g) => t.kind_is(g as int, "labeled_statement") && match t.field(g as int, "label") {
            Some(l) => t.text(l as int) == label,
            None => false,
        },
        None => false,
    }
}


} // verus!

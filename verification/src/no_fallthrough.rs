use vstd::prelude::*;
use crate::diagnostic::{plain, ReportView, RuleContext, Severity};
use vstd::string::StringExecFns;
use vstd::utf8::encode_utf8;
use crate::helpers::{has_fallthrough_comment, is_terminal, lowercase, mentions_fallthrough, terminal};
use crate::text::{bytes_to_string, range_of, slice_range, text_chars};
use crate::rule::Rule;
use crate::tree::{SyntaxTree, lemma_node_span};

verus! {

/// Disallows a `case` or `default` clause whose statements do not end in
/// `break`, `return`, `throw` or `continue` when another clause follows, unless
/// a comment says that it falls through.
#[derive(Clone, Copy, Debug)]
pub struct NoFallthrough;

impl Rule for NoFallthrough {
    open spec fn spec_name(&self) -> Seq<char> {
        "no-fallthrough"@
    }

    open spec fn spec_severity(&self) -> Severity {
        Severity::Error
    }

    open spec fn spec_reports(&self, t: &SyntaxTree, n: int) -> Seq<ReportView> {
        if !(t.kind_is(n, "switch_case") || t.kind_is(n, "switch_default")) {
            Seq::empty()
        } else {
            let kids = t.named_children(n);
            let skip: int = if t.kind_is(n, "switch_case") { 1 } else { 0 };
            if kids.len() <= skip {
                Seq::empty()
            } else {
                let last = kids.last() as int;
                if ends_clause(t, last) {
                    Seq::empty()
                } else {
                    match t.next_named_sibling(n) {
                        Some(s) if t.kind_is(s as int, "switch_case") || t.kind_is(s as int, "switch_default") => {
                            let between = range_of(t.bytes(), t.node(n).end_byte as int, t.node(s as int).start_byte as int);
                            let trailing = range_of(t.bytes(), t.node(last).end_byte as int, t.node(n).end_byte as int);
                            if noted(between) || noted(trailing) {
                                Seq::empty()
                            } else if t.kind_is(s as int, "switch_default") {
                                seq![plain(t.start(n), t.end(n), "Expected a 'break' statement before 'default'."@)]
                            } else {
                                seq![plain(t.start(n), t.end(n), "Expected a 'break' statement before 'case'."@)]
                            }
                        },
                        _ => Seq::empty(),
                    }
                }
            }
        }
    }

    proof fn lemma_reports_within(&self, t: &SyntaxTree, n: int) {
        lemma_node_span(t, n);
    }

    fn name(&self) -> &'static str {
        "no-fallthrough"
    }

    fn default_severity(&self) -> Severity {
        Severity::Error
    }

    fn on_node(&self, t: &SyntaxTree, node: usize, ctx: &mut RuleContext) {
        if !(t.has_kind(node, "switch_case") || t.has_kind(node, "switch_default")) {
            return;
        }
        let kids = t.named_children_of(node);
        let skip: usize = if t.has_kind(node, "switch_case") {
            1
        } else {
            0
        };
        if kids.len() <= skip {
            return;
        }
        let last = kids[kids.len() - 1];
        if is_terminal(t, last) {
            return;
        }
        if t.has_kind(last, "statement_block") {
            let count = t.count_named(last);
            if let Some(last_in_block) = t.named_child_at(last, count.saturating_sub(1)) {
                if is_terminal(t, last_in_block) {
                    return;
                }
            }
        }
        if let Some(next_sib) = t.next_named_sibling_of(node) {
            if t.has_kind(next_sib, "switch_case") || t.has_kind(next_sib, "switch_default") {
                proof {
                    assert(t.node_wf(node as int));
                    assert(t.node_wf(last as int));
                    assert(t.node_wf(next_sib as int));
                }
                let bytes = t.source_bytes();
                let between = slice_range(bytes, t.nodes[node].end_byte, t.nodes[next_sib].start_byte);
                let trailing = slice_range(bytes, t.nodes[last].end_byte, t.nodes[node].end_byte);
                if is_noted(between) || is_noted(trailing) {
                    return;
                }
                if t.has_kind(next_sib, "switch_default") {
                    ctx.report(
                        t.start_byte(node),
                        t.end_byte(node),
                        "Expected a 'break' statement before 'default'.",
                    );
                } else {
                    ctx.report(
                        t.start_byte(node),
                        t.end_byte(node),
                        "Expected a 'break' statement before 'case'.",
                    );
                }
            }
        }
    }
}

/// The clause's last statement ends it: it is terminal, or it is a block
/// whose last named child is terminal.
pub open spec fn ends_clause(t: &SyntaxTree, last: int) -> bool {
    terminal(t, last) || (t.kind_is(last, "statement_block") && match t.named_child(
        last,
        if t.named_child_count(last) >= 1 {
            t.named_child_count(last) - 1
        } else {
            0
        },
    ) {
        Some(x) => terminal(t, x as int),
        None => false,
    })
}

/// Source bytes that hold a fallthrough comment.
pub open spec fn noted(bytes: Seq<u8>) -> bool {
    mentions_fallthrough(encode_utf8(lowercase(text_chars(bytes))))
}

fn is_noted(bytes: &[u8]) -> (r: bool)
    ensures
        r == noted(bytes@),
{
    let text = bytes_to_string(bytes);
    has_fallthrough_comment(text.as_str())
}

} // verus!

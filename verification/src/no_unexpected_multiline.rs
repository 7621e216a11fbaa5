use vstd::prelude::*;
use crate::diagnostic::lemma_concat_within;
use crate::tree::lemma_field_valid;
use crate::diagnostic::{plain, ReportView, RuleContext, Severity};
use vstd::string::StringExecFns;
use vstd::string::StringSliceAdditionalSpecFns;
use vstd::utf8::encode_utf8;
use crate::text::{bytes_contain, bytes_to_string, contains_seq, count_byte, count_byte_exec, find_from, first_occurrence_from, range_of, slice_range, text_chars, trim_end, trim_end_str};
use crate::rule::Rule;
use crate::tree::{SyntaxTree, lemma_node_span};

verus! {

/// Disallows line breaks that JavaScript's automatic semicolon insertion
/// could read as a call, a property access or a tagged template: a `(` of a
/// call's arguments, a `[` of a subscript, or a template literal that starts on
/// a later line than what comes before it.
#[derive(Clone, Copy, Debug)]
pub struct NoUnexpectedMultiline;

impl Rule for NoUnexpectedMultiline {
    open spec fn spec_name(&self) -> Seq<char> {
        "no-unexpected-multiline"@
    }

    open spec fn spec_severity(&self) -> Severity {
        Severity::Error
    }

    open spec fn spec_reports(&self, t: &SyntaxTree, n: int) -> Seq<ReportView> {
        (if t.kind_is(n, "call_expression") {
            call_reports(t, n)
        } else if t.kind_is(n, "subscript_expression") {
            subscript_reports(t, n)
        } else {
            Seq::empty()
        }) + template_reports(t, n)
    }

    proof fn lemma_reports_within(&self, t: &SyntaxTree, n: int) {
        lemma_node_span(t, n);
        lemma_field_valid(t, n, "arguments"@, 0);
        lemma_field_valid(t, n, "index"@, 0);
        if let Some(a) = t.field(n, "arguments") {
            lemma_node_span(t, a as int);
        }
        if let Some(i) = t.field(n, "index") {
            lemma_node_span(t, i as int);
        }
        lemma_concat_within(
            if t.kind_is(n, "call_expression") {
                call_reports(t, n)
            } else if t.kind_is(n, "subscript_expression") {
                subscript_reports(t, n)
            } else {
                Seq::empty()
            },
            template_reports(t, n),
            t.bytes().len() as int,
        );
    }

    fn name(&self) -> &'static str {
        "no-unexpected-multiline"
    }

    fn default_severity(&self) -> Severity {
        Severity::Error
    }

    fn on_node(&self, t: &SyntaxTree, node: usize, ctx: &mut RuleContext) {
        if t.has_kind(node, "call_expression") {
            check_call(t, node, ctx);
        } else if t.has_kind(node, "subscript_expression") {
            check_subscript(t, node, ctx);
        }
        if t.has_kind(node, "template_string") {
            if let Some(parent) = t.parent_of(node) {
                if t.has_kind(parent, "call_expression") {
                    if let Some(func) = t.child_by_field_name(parent, "function") {
                        if t.nodes[node].start_row > t.nodes[func].end_row {
                            ctx.report(
                                t.start_byte(node),
                                t.end_byte(node),
                                "Unexpected newline between template tag and template literal.",
                            );
                        }
                    }
                }
            }
        }
    }
}

pub const NEWLINE: u8 = 10;

pub const CLOSE_PAREN: u8 = 41;

pub const GREATER: u8 = 62;

/// The line on which the token before a call's `(` ends: for a `)` or `>`
/// that the source before the arguments ends in (after white space), the
/// number of line breaks up to it; otherwise the line on which the callee
/// ends.
pub open spec fn token_row(t: &SyntaxTree, f: int, a: int) -> int {
    let before = encode_utf8(trim_end(text_chars(t.bytes().subrange(0, t.node(a).start_byte as int))));
    if before.len() > 0 && (before.last() == GREATER || before.last() == CLOSE_PAREN) {
        count_byte(before, NEWLINE) as int
    } else {
        t.node(f).end_row as int
    }
}

/// The report on a call whose arguments open on a later line than the token
/// before them, unless the call has no arguments or is optional (`?.`).
pub open spec fn call_reports(t: &SyntaxTree, n: int) -> Seq<ReportView> {
    match (t.field(n, "arguments"), t.field(n, "function")) {
        (Some(a), Some(f)) => if t.named_child_count(a as int) == 0 || contains_seq(
            range_of(t.bytes(), t.node(f as int).end_byte as int, t.node(a as int).start_byte as int),
            "?.".spec_bytes(),
        ) {
            Seq::empty()
        } else if t.node(a as int).start_row > token_row(t, f as int, a as int) {
            seq![
                plain(
                    t.start(a as int),
                    t.end(a as int),
                    "Unexpected newline between function and ( of function call."@,
                ),
            ]
        } else {
            Seq::empty()
        },
        _ => Seq::empty(),
    }
}

fn check_call(t: &SyntaxTree, node: usize, ctx: &mut RuleContext)
    requires
        t.wf(),
        t.valid_node(node as int),
    ensures
        final(ctx)@ == old(ctx)@ + call_reports(t, node as int),
{
    if let Some(args) = t.child_by_field_name(node, "arguments") {
        if let Some(func) = t.child_by_field_name(node, "function") {
            if t.count_named(args) == 0 {
                return;
            }
            proof {
                assert(t.node_wf(args as int));
                assert(t.node_wf(func as int));
            }
            let bytes = t.source_bytes();
            let between = slice_range(bytes, t.nodes[func].end_byte, t.nodes[args].start_byte);
            if bytes_contain(between, "?.".as_bytes()) {
                return;
            }
            let open_paren_row = t.nodes[args].start_row;
            let prefix = bytes_to_string(&bytes[0..t.nodes[args].start_byte]);
            let before_paren = trim_end_str(prefix.as_str()).as_bytes();
            let token_row = if before_paren.len() > 0 && (before_paren[before_paren.len() - 1]
                == GREATER || before_paren[before_paren.len() - 1] == CLOSE_PAREN) {
                count_byte_exec(before_paren, NEWLINE)
            } else {
                t.nodes[func].end_row
            };
            if open_paren_row > token_row {
                ctx.report(
                    t.start_byte(args),
                    t.end_byte(args),
                    "Unexpected newline between function and ( of function call.",
                );
            }
        }
    }
}

/// The line on which the `[` of a subscript stands: the number of line
/// breaks before the first `[` between object and index, or else the line
/// on which the index starts.
pub open spec fn bracket_row(t: &SyntaxTree, obj: int, index: int) -> int {
    let between = range_of(t.bytes(), t.node(obj).end_byte as int, t.node(index).start_byte as int);
    match first_occurrence_from(between, "[".spec_bytes(), 0) {
        Some(off) => count_byte(t.bytes().subrange(0, t.node(obj).end_byte + off), NEWLINE) as int,
        None => t.node(index).start_row as int,
    }
}

/// The report on a subscript whose `[` stands on a later line than the end
/// of the object, unless the access is optional (`?.`).
pub open spec fn subscript_reports(t: &SyntaxTree, n: int) -> Seq<ReportView> {
    match (t.field(n, "object"), t.field(n, "index")) {
        (Some(o), Some(i)) => if contains_seq(
            range_of(t.bytes(), t.node(o as int).end_byte as int, t.node(i as int).start_byte as int),
            "?.".spec_bytes(),
        ) {
            Seq::empty()
        } else if bracket_row(t, o as int, i as int) > t.node(o as int).end_row {
            seq![
                plain(
                    t.start(i as int),
                    t.end(i as int),
                    "Unexpected newline between object and [ of property access."@,
                ),
            ]
        } else {
            Seq::empty()
        },
        _ => Seq::empty(),
    }
}

fn check_subscript(t: &SyntaxTree, node: usize, ctx: &mut RuleContext)
    requires
        t.wf(),
        t.valid_node(node as int),
    ensures
        final(ctx)@ == old(ctx)@ + subscript_reports(t, node as int),
{
    if let Some(obj) = t.child_by_field_name(node, "object") {
        if let Some(index) = t.child_by_field_name(node, "index") {
            proof {
                assert(t.node_wf(obj as int));
                assert(t.node_wf(index as int));
            }
            let bytes = t.source_bytes();
            let obj_end = t.nodes[obj].end_byte;
            let between = slice_range(bytes, obj_end, t.nodes[index].start_byte);
            if bytes_contain(between, "?.".as_bytes()) {
                return;
            }
            let bracket_row = match find_from(between, "[".as_bytes(), 0) {
                Some(offset) => {
                    proof {
                        reveal_strlit("[");
                    }
                    count_byte_exec(&bytes[0..obj_end + offset], NEWLINE)
                },
                None => t.nodes[index].start_row,
            };
            if bracket_row > t.nodes[obj].end_row {
                ctx.report(
                    t.start_byte(index),
                    t.end_byte(index),
                    "Unexpected newline between object and [ of property access.",
                );
            }
        }
    }
}

/// The report on a template literal that is the argument of a tagged call
/// and starts on a later line than its tag ends.
pub open spec fn template_reports(t: &SyntaxTree, n: int) -> Seq<ReportView> {
    if !t.kind_is(n, "template_string") {
        Seq::empty()
    } else {
        match t.parent(n) {
            Some(p) if t.kind_is(p as int, "call_expression") => match t.field(p as int, "function") {
                Some(f) if t.node(n).start_row > t.node(f as int).end_row => seq![
                    plain(
                        t.start(n),
                        t.end(n),
                        "Unexpected newline between template tag and template literal."@,
                    ),
                ],
                _ => Seq::empty(),
            },
            _ => Seq::empty(),
        }
    }
}

} // verus!

use vstd::prelude::*;
use crate::diagnostic::{plain, ReportView, RuleContext, Severity};
use vstd::string::StringExecFns;
use crate::rule::Rule;
use crate::tree::{SyntaxTree, lemma_node_span};

verus! {

/// Disallows the empty character class `[]` in regular expression
/// literals.
#[derive(Clone, Copy, Debug)]
pub struct NoEmptyCharacterClass;

impl Rule for NoEmptyCharacterClass {
    open spec fn spec_name(&self) -> Seq<char> {
        "no-empty-character-class"@
    }

    open spec fn spec_severity(&self) -> Severity {
        Severity::Error
    }

    open spec fn spec_reports(&self, t: &SyntaxTree, n: int) -> Seq<ReportView> {
        if t.kind_is(n, "regex") && empty_class_from(t.text(n), 1) {
            seq![plain(t.start(n), t.end(n), "Empty class."@)]
        } else {
            Seq::empty()
        }
    }

    proof fn lemma_reports_within(&self, t: &SyntaxTree, n: int) {
        lemma_node_span(t, n);
    }

    fn name(&self) -> &'static str {
        "no-empty-character-class"
    }

    fn default_severity(&self) -> Severity {
        Severity::Error
    }

    fn on_node(&self, t: &SyntaxTree, node: usize, ctx: &mut RuleContext) {
        if !t.has_kind(node, "regex") {
            return;
        }
        let bytes = t.node_text(node);
        let mut i: usize = 1;
        while i < bytes.len()
            invariant
                1 <= i,
                t.wf(),
                t.valid_node(node as int),
                bytes@ == t.text(node as int),
                t.kind_is(node as int, "regex"),
                empty_class_from(bytes@, 1) == empty_class_from(bytes@, i as int),
                ctx@ == old(ctx)@,
            ensures
                !empty_class_from(bytes@, 1),
                ctx@ == old(ctx)@,
            decreases bytes.len() - i,
        {
            if bytes[i] == SLASH && !is_escaped(bytes, i) {
                break;
            }
            if bytes[i] == OPEN_BRACKET && !is_escaped(bytes, i) && i + 1 < bytes.len() && bytes[i + 1]
                == CLOSE_BRACKET {
                ctx.report(t.start_byte(node), t.end_byte(node), "Empty class.");
                return;
            }
            i = i + 1;
        }
    }
}

pub const SLASH: u8 = 47;

pub const BACKSLASH: u8 = 92;

pub const OPEN_BRACKET: u8 = 91;

pub const CLOSE_BRACKET: u8 = 93;

/// The number of backslashes directly before position `pos`.
pub open spec fn backslashes_before(s: Seq<u8>, pos: int) -> nat
    decreases pos,
{
    if pos <= 0 || pos > s.len() || s[pos - 1] != BACKSLASH {
        0
    } else {
        1 + backslashes_before(s, pos - 1)
    }
}

/// The byte at `pos` is escaped: an odd number of backslashes precede it.
pub open spec fn escaped(s: Seq<u8>, pos: int) -> bool {
    backslashes_before(s, pos) % 2 == 1
}

/// Whether the byte at `pos` is escaped by the backslashes before it.
pub fn is_escaped(bytes: &[u8], pos: usize) -> (r: bool)
    requires
        pos <= bytes@.len(),
    ensures
        r == escaped(bytes@, pos as int),
{
    let mut count: usize = 0;
    let mut i: usize = pos;
    while i > 0 && bytes[i - 1] == BACKSLASH
        invariant
            i <= pos <= bytes@.len(),
            count == pos - i,
            backslashes_before(bytes@, pos as int) == count + backslashes_before(bytes@, i as int),
        decreases i,
    {
        count = count + 1;
        i = i - 1;
    }
    count % 2 == 1
}

/// Scanning the pattern from `i` up to its closing slash finds `[]` with an
/// unescaped `[`.
pub open spec fn empty_class_from(s: Seq<u8>, i: int) -> bool
    decreases s.len() - i,
{
    if i < 0 || i >= s.len() {
        false
    } else if s[i] == SLASH && !escaped(s, i) {
        false
    } else if s[i] == OPEN_BRACKET && !escaped(s, i) && i + 1 < s.len() && s[i + 1]
        == CLOSE_BRACKET {
        true
    } else {
        empty_class_from(s, i + 1)
    }
}

} // verus!

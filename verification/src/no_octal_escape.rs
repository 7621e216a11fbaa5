use vstd::prelude::*;
use crate::diagnostic::{plain, ReportView, RuleContext, Severity};
use vstd::string::StringExecFns;
use crate::no_empty_character_class::BACKSLASH;
use crate::rule::Rule;
use crate::tree::{SyntaxTree, lemma_node_span};

verus! {

/// Disallows octal escape sequences in string literals.
#[derive(Clone, Copy, Debug)]
pub struct NoOctalEscape;

impl Rule for NoOctalEscape {
    open spec fn spec_name(&self) -> Seq<char> {
        "no-octal-escape"@
    }

    open spec fn spec_severity(&self) -> Severity {
        Severity::Error
    }

    open spec fn spec_reports(&self, t: &SyntaxTree, n: int) -> Seq<ReportView> {
        if t.kind_is(n, "string") && octal_escape_from(t.text(n), 1) {
            seq![plain(t.start(n), t.end(n), "Don't use octal escape sequences."@)]
        } else {
            Seq::empty()
        }
    }

    proof fn lemma_reports_within(&self, t: &SyntaxTree, n: int) {
        lemma_node_span(t, n);
    }

    fn name(&self) -> &'static str {
        "no-octal-escape"
    }

    fn default_severity(&self) -> Severity {
        Severity::Error
    }

    fn on_node(&self, t: &SyntaxTree, node: usize, ctx: &mut RuleContext) {
        if !t.has_kind(node, "string") {
            return;
        }
        let bytes = t.node_text(node);
        let mut i: usize = 1;
        let limit = bytes.len().saturating_sub(1);
        while i < limit
            invariant
                1 <= i,
                t.wf(),
                t.valid_node(node as int),
                bytes@ == t.text(node as int),
                t.kind_is(node as int, "string"),
                limit == if bytes@.len() >= 1 { bytes@.len() - 1 } else { 0 },
                octal_escape_from(bytes@, 1) == octal_escape_from(bytes@, i as int),
                ctx@ == old(ctx)@,
            decreases limit - i,
        {
            if bytes[i] == BACKSLASH && i + 1 < bytes.len() - 1 {
                let next = bytes[i + 1];
                if ZERO <= next && next <= SEVEN {
                    ctx.report(t.start_byte(node), t.end_byte(node), "Don't use octal escape sequences.");
                    return;
                }
            }
            i = i + 1;
        }
    }
}

pub const ZERO: u8 = 48;

pub const SEVEN: u8 = 55;

/// Scanning the literal from `i`, short of its closing quote, finds a
/// backslash followed by a digit from 0 to 7 that is not the closing quote.
pub open spec fn octal_escape_from(s: Seq<u8>, i: int) -> bool
    decreases s.len() - i,
{
    if i < 0 || i + 1 >= s.len() {
        false
    } else if s[i] == BACKSLASH && i + 1 < s.len() - 1 && ZERO <= s[i + 1] <= SEVEN {
        true
    } else {
        octal_escape_from(s, i + 1)
    }
}

} // verus!

use vstd::prelude::*;
use crate::diagnostic::{plain, ReportView, RuleContext, Severity};
use vstd::string::StringSliceAdditionalSpecFns;
use crate::text::{bytes_contain, contains_seq};
use crate::rule::Rule;
use crate::tree::{SyntaxTree, lemma_node_span};

verus! {

/// Disallows control-character escapes (`\\x0`, `\\x1`, `\\u000`,
/// `\\u001`) in regular expression literals.
#[derive(Clone, Copy, Debug)]
pub struct NoControlRegex;

impl Rule for NoControlRegex {
    open spec fn spec_name(&self) -> Seq<char> {
        "no-control-regex"@
    }

    open spec fn spec_severity(&self) -> Severity {
        Severity::Error
    }

    open spec fn spec_reports(&self, t: &SyntaxTree, n: int) -> Seq<ReportView> {
        if t.kind_is(n, "regex") && control_escape(t.text(n)) {
            seq![plain(t.start(n), t.end(n), "Unexpected control character(s) in regular expression."@)]
        } else {
            Seq::empty()
        }
    }

    proof fn lemma_reports_within(&self, t: &SyntaxTree, n: int) {
        lemma_node_span(t, n);
    }

    fn name(&self) -> &'static str {
        "no-control-regex"
    }

    fn default_severity(&self) -> Severity {
        Severity::Error
    }

    fn on_node(&self, t: &SyntaxTree, node: usize, ctx: &mut RuleContext) {
        if !t.has_kind(node, "regex") {
            return;
        }
        let text = t.node_text(node);
        if bytes_contain(text, "\\x0".as_bytes()) || bytes_contain(text, "\\x1".as_bytes())
            || bytes_contain(text, "\\u000".as_bytes()) || bytes_contain(text, "\\u001".as_bytes()) {
            ctx.report(
                t.start_byte(node),
                t.end_byte(node),
                "Unexpected control character(s) in regular expression.",
            );
        }
    }
}

/// Text holding an escape of a character below 0x20.
pub open spec fn control_escape(s: Seq<u8>) -> bool {
    ||| contains_seq(s, "\\x0".spec_bytes())
    ||| contains_seq(s, "\\x1".spec_bytes())
    ||| contains_seq(s, "\\u000".spec_bytes())
    ||| contains_seq(s, "\\u001".spec_bytes())
}

} // verus!

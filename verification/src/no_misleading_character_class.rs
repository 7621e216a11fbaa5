use vstd::prelude::*;
use crate::diagnostic::{plain, ReportView, RuleContext, Severity};
use vstd::string::StringExecFns;
use crate::no_empty_character_class::{BACKSLASH, CLOSE_BRACKET, OPEN_BRACKET, SLASH};
use crate::rule::Rule;
use crate::tree::{SyntaxTree, lemma_node_span};

verus! {

/// Disallows character classes in regular expression literals that hold
/// multi-byte characters.
#[derive(Clone, Copy, Debug)]
pub struct NoMisleadingCharacterClass;

impl Rule for NoMisleadingCharacterClass {
    open spec fn spec_name(&self) -> Seq<char> {
        "no-misleading-character-class"@
    }

    open spec fn spec_severity(&self) -> Severity {
        Severity::Error
    }

    open spec fn spec_reports(&self, t: &SyntaxTree, n: int) -> Seq<ReportView> {
        if t.kind_is(n, "regex") && misleading_from(t.text(n), 1, false) {
            seq![plain(t.start(n), t.end(n), "Character class contains a composite character."@)]
        } else {
            Seq::empty()
        }
    }

    proof fn lemma_reports_within(&self, t: &SyntaxTree, n: int) {
        lemma_node_span(t, n);
    }

    fn name(&self) -> &'static str {
        "no-misleading-character-class"
    }

    fn default_severity(&self) -> Severity {
        Severity::Error
    }

    fn on_node(&self, t: &SyntaxTree, node: usize, ctx: &mut RuleContext) {
        if !t.has_kind(node, "regex") {
            return;
        }
        let bytes = t.node_text(node);
        let mut in_class = false;
        let mut i: usize = 1;
        while i < bytes.len()
            invariant
                1 <= i,
                t.wf(),
                t.valid_node(node as int),
                bytes@ == t.text(node as int),
                t.kind_is(node as int, "regex"),
                misleading_from(bytes@, 1, false) == misleading_from(bytes@, i as int, in_class),
                ctx@ == old(ctx)@,
            ensures
                !misleading_from(bytes@, 1, false),
                ctx@ == old(ctx)@,
            decreases bytes.len() - i,
        {
            if bytes[i] == SLASH && !in_class {
                break;
            }
            if bytes[i] == BACKSLASH {
                if bytes.len() - i <= 2 {
                    proof {
                        assert(misleading_from(bytes@, i + 2, in_class) == false);
                    }
                    i = bytes.len();
                } else {
                    i = i + 2;
                }
                continue;
            }
            if bytes[i] == OPEN_BRACKET {
                in_class = true;
            } else if bytes[i] == CLOSE_BRACKET {
                in_class = false;
            } else if in_class && bytes[i] > 0x7f {
                ctx.report(
                    t.start_byte(node),
                    t.end_byte(node),
                    "Character class contains a composite character.",
                );
                return;
            }
            i = i + 1;
        }
    }
}

/// Scanning the pattern from `i`, inside a class or not, up to its closing
/// slash finds a byte above 0x7f inside a class. A backslash skips the byte
/// after it.
pub open spec fn misleading_from(s: Seq<u8>, i: int, in_class: bool) -> bool
    decreases s.len() + 2 - i,
{
    if i < 0 || i >= s.len() {
        false
    } else if s[i] == SLASH && !in_class {
        false
    } else if s[i] == BACKSLASH {
        misleading_from(s, i + 2, in_class)
    } else if s[i] == OPEN_BRACKET {
        misleading_from(s, i + 1, true)
    } else if s[i] == CLOSE_BRACKET {
        misleading_from(s, i + 1, false)
    } else if in_class && s[i] > 0x7f {
        true
    } else {
        misleading_from(s, i + 1, in_class)
    }
}

} // verus!

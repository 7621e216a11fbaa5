use vstd::prelude::*;
use crate::diagnostic::{plain, ReportView, RuleContext, Severity};
use vstd::string::StringExecFns;
use vstd::string::StringSliceAdditionalSpecFns;
use crate::text::bytes_eq;
use crate::rule::Rule;
use crate::tree::{SyntaxTree, lemma_node_span};

verus! {

/// Disallows calling `hasOwnProperty`, `isPrototypeOf` and
/// `propertyIsEnumerable` directly on an object.
#[derive(Clone, Copy, Debug)]
pub struct NoPrototypeBuiltins;

impl Rule for NoPrototypeBuiltins {
    open spec fn spec_name(&self) -> Seq<char> {
        "no-prototype-builtins"@
    }

    open spec fn spec_severity(&self) -> Severity {
        Severity::Error
    }

    open spec fn spec_reports(&self, t: &SyntaxTree, n: int) -> Seq<ReportView> {
        match t.field(n, "function") {
            Some(f) if t.kind_is(n, "call_expression") && t.kind_is(f as int, "member_expression") => match t.field(
                f as int,
                "property",
            ) {
                Some(p) if prototype_builtin(t.text(p as int)) => seq![
                    plain(
                        t.start(n),
                        t.end(n),
                        "Do not access Object.prototype method '"@ + t.text_chars(p as int)
                            + "' from target object."@,
                    ),
                ],
                _ => Seq::empty(),
            },
            _ => Seq::empty(),
        }
    }

    proof fn lemma_reports_within(&self, t: &SyntaxTree, n: int) {
        lemma_node_span(t, n);
    }

    fn name(&self) -> &'static str {
        "no-prototype-builtins"
    }

    fn default_severity(&self) -> Severity {
        Severity::Error
    }

    fn on_node(&self, t: &SyntaxTree, node: usize, ctx: &mut RuleContext) {
        if !t.has_kind(node, "call_expression") {
            return;
        }
        let func = match t.child_by_field_name(node, "function") {
            Some(f) => f,
            None => return,
        };
        if !t.has_kind(func, "member_expression") {
            return;
        }
        if let Some(prop) = t.child_by_field_name(func, "property") {
            let text = t.node_text(prop);
            if bytes_eq(text, "hasOwnProperty".as_bytes()) || bytes_eq(text, "isPrototypeOf".as_bytes())
                || bytes_eq(text, "propertyIsEnumerable".as_bytes()) {
                let mut msg = String::from_str("Do not access Object.prototype method '");
                msg.append(t.text_string(prop).as_str());
                msg.append("' from target object.");
                ctx.report_string(t.start_byte(node), t.end_byte(node), msg);
            }
        }
    }
}

/// The names `hasOwnProperty`, `isPrototypeOf` and `propertyIsEnumerable`.
pub open spec fn prototype_builtin(s: Seq<u8>) -> bool {
    ||| s == "hasOwnProperty".spec_bytes()
    ||| s == "isPrototypeOf".spec_bytes()
    ||| s == "propertyIsEnumerable".spec_bytes()
}

} // verus!

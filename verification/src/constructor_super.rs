use vstd::prelude::*;
use crate::diagnostic::{all_within, lemma_each_node_within};
use crate::helpers::lemma_named_children_valid;
use crate::tree::lemma_field_valid;
use crate::diagnostic::{plain, ReportView, RuleContext, Severity};
use vstd::string::StringExecFns;
use crate::diagnostic::{each_node, lemma_each_node_all, lemma_each_node_has, lemma_each_node_step};
use crate::rule::Rule;
use crate::tree::{SyntaxTree, lemma_child_valid, lemma_node_span};

verus! {

/// Requires the constructor of a class that extends another to call
/// `super()`, outside any nested function.
#[derive(Clone, Copy, Debug)]
pub struct ConstructorSuper;

impl Rule for ConstructorSuper {
    open spec fn spec_name(&self) -> Seq<char> {
        "constructor-super"@
    }

    open spec fn spec_severity(&self) -> Severity {
        Severity::Error
    }

    open spec fn spec_reports(&self, t: &SyntaxTree, n: int) -> Seq<ReportView> {
        match t.field(n, "body") {
            Some(b) if t.kind_is(n, "class_declaration") && extends(t, n) => each_node(
                t.named_children(b as int),
                |c: usize| constructor_report(t, c as int),
            ),
            _ => Seq::empty(),
        }
    }

    proof fn lemma_reports_within(&self, t: &SyntaxTree, n: int) {
        lemma_field_valid(t, n, "body"@, 0);
        if let Some(b) = t.field(n, "body") {
            lemma_named_children_valid(t, b as int);
            let cs = t.named_children(b as int);
            let f = |c: usize| constructor_report(t, c as int);
            assert forall|i: int| 0 <= i < cs.len() implies all_within(
                #[trigger] f(cs[i]),
                t.bytes().len() as int,
            ) by {
                lemma_node_span(t, cs[i] as int);
            }
            lemma_each_node_within(cs, f, t.bytes().len() as int);
        }
    }

    fn name(&self) -> &'static str {
        "constructor-super"
    }

    fn default_severity(&self) -> Severity {
        Severity::Error
    }

    fn on_node(&self, t: &SyntaxTree, node: usize, ctx: &mut RuleContext) {
        if !t.has_kind(node, "class_declaration") {
            return;
        }
        if !has_extends(t, node) {
            return;
        }
        let body = match t.child_by_field_name(node, "body") {
            Some(b) => b,
            None => return,
        };
        let members = t.named_children_of(body);
        let ghost before = ctx@;
        let ghost f = |c: usize| constructor_report(t, c as int);
        let mut i: usize = 0;
        while i < members.len()
            invariant
                t.wf(),
                members@ == t.named_children(body as int),
                forall|j: int| 0 <= j < members@.len() ==> body < #[trigger] members@[j] < t.len(),
                0 <= i <= members@.len(),
                f == (|c: usize| constructor_report(t, c as int)),
                ctx@ == before + each_node(members@.subrange(0, i as int), f),
            decreases members.len() - i,
        {
            let child = members[i];
            proof {
                lemma_each_node_step(members@, f, i as int);
            }
            if t.has_kind(child, "method_definition") {
                if let Some(name) = t.child_by_field_name(child, "name") {
                    if t.text_equals(name, "constructor") {
                        if let Some(fn_body) = t.child_by_field_name(child, "body") {
                            if !has_super_call(t, fn_body) {
                                ctx.report(
                                    t.start_byte(child),
                                    t.end_byte(child),
                                    "Expected super() call in constructor of derived class.",
                                );
                            }
                        }
                    }
                }
            }
            i = i + 1;
        }
        proof {
            lemma_each_node_all(members@, f);
        }
    }
}

/// A class with a heritage clause.
pub open spec fn extends(t: &SyntaxTree, n: int) -> bool {
    t.field(n, "heritage") is Some || exists|j: int|
        0 <= j < t.children(n).len() && t.kind_is(#[trigger] t.children(n)[j] as int, "class_heritage")
}

fn has_extends(t: &SyntaxTree, n: usize) -> (r: bool)
    requires
        t.wf(),
        t.valid_node(n as int),
    ensures
        r == extends(t, n as int),
{
    if t.child_by_field_name(n, "heritage").is_some() {
        return true;
    }
    proof {
        assert(t.node_wf(n as int));
    }
    let kids = &t.nodes[n].children;
    let mut j: usize = 0;
    while j < kids.len()
        invariant
            t.wf(),
            kids@ == t.children(n as int),
            t.node_wf(n as int),
            t.field(n as int, "heritage") is None,
            0 <= j <= kids@.len(),
            forall|k: int| 0 <= k < j ==> !t.kind_is(#[trigger] kids@[k] as int, "class_heritage"),
        decreases kids.len() - j,
    {
        if t.has_kind(kids[j], "class_heritage") {
            return true;
        }
        j = j + 1;
    }
    false
}

/// The report for class member `c` when it is a constructor whose body calls
/// no `super()`.
pub open spec fn constructor_report(t: &SyntaxTree, c: int) -> Seq<ReportView> {
    if t.kind_is(c, "method_definition") {
        match (t.field(c, "name"), t.field(c, "body")) {
            (Some(name), Some(body)) if t.text_is(name as int, "constructor") && !super_call_in(
                t,
                body as int,
            ) => seq![
                plain(t.start(c), t.end(c), "Expected super() call in constructor of derived class."@),
            ],
            _ => Seq::empty(),
        }
    } else {
        Seq::empty()
    }
}

/// A call whose callee is `super`.
pub open spec fn super_call(t: &SyntaxTree, c: int) -> bool {
    t.kind_is(c, "call_expression") && match t.field(c, "function") {
        Some(f) => t.kind_is(f as int, "super"),
        None => false,
    }
}

/// Function declarations, function expressions and arrow functions.
pub open spec fn plain_function(t: &SyntaxTree, c: int) -> bool {
    t.kind_is(c, "function_declaration") || t.kind_is(c, "function_expression") || t.kind_is(
        c,
        "arrow_function",
    )
}

/// The subtree below `n` holds a `super()` call outside nested functions.
pub open spec fn super_call_in(t: &SyntaxTree, n: int) -> bool
    decreases t.len() - n, t.children(n).len() + 1,
{
    t.valid_node(n) && child_super_call(t, n, t.children(n).len() as int)
}

/// One of the first `k` children of `n` is a `super()` call or, not being a
/// function, holds one.
pub open spec fn child_super_call(t: &SyntaxTree, n: int, k: int) -> bool
    decreases t.len() - n, k,
{
    if k <= 0 || !t.valid_node(n) {
        false
    } else {
        let c = t.children(n)[k - 1];
        child_super_call(t, n, k - 1) || (n < c < t.len() && (super_call(t, c as int) || (
        !plain_function(t, c as int) && super_call_in(t, c as int))))
    }
}

proof fn lemma_child_super_call_grows(t: &SyntaxTree, n: int, k: int, m: int)
    requires
        k <= m,
        child_super_call(t, n, k),
    ensures
        child_super_call(t, n, m),
    decreases m - k,
{
    if k < m {
        lemma_child_super_call_grows(t, n, k, m - 1);
    }
}

/// Whether the subtree below `n` holds a `super()` call.
fn has_super_call(t: &SyntaxTree, n: usize) -> (r: bool)
    requires
        t.wf(),
        t.valid_node(n as int),
    ensures
        r == super_call_in(t, n as int),
    decreases t.len() - n,
{
    proof {
        assert(t.node_wf(n as int));
    }
    let kids = &t.nodes[n].children;
    let mut j: usize = 0;
    while j < kids.len()
        invariant
            t.wf(),
            t.valid_node(n as int),
            kids@ == t.children(n as int),
            t.node_wf(n as int),
            0 <= j <= kids@.len(),
            !child_super_call(t, n as int, j as int),
        decreases kids.len() - j,
    {
        let child = kids[j];
        let is_super = if t.has_kind(child, "call_expression") {
            match t.child_by_field_name(child, "function") {
                Some(f) => t.has_kind(f, "super"),
                None => false,
            }
        } else {
            false
        };
        if is_super {
            proof {
                lemma_child_super_call_grows(t, n as int, j + 1, kids@.len() as int);
            }
            return true;
        }
        let is_function = t.has_kind(child, "function_declaration") || t.has_kind(
            child,
            "function_expression",
        ) || t.has_kind(child, "arrow_function");
        if !is_function {
            if has_super_call(t, child) {
                proof {
                    lemma_child_super_call_grows(t, n as int, j + 1, kids@.len() as int);
                }
                return true;
            }
        }
        j = j + 1;
    }
    false
}

/// No node of the tree is a call whose callee is `super`.
pub open spec fn no_super_calls(t: &SyntaxTree) -> bool {
    forall|m: int|
        0 <= m < t.len() ==> !(#[trigger] t.kind_is(m, "call_expression") && match t.field(
            m,
            "function",
        ) {
            Some(f) => t.kind_is(f as int, "super"),
            None => false,
        })
}

proof fn lemma_no_super_in(t: &SyntaxTree, n: int)
    requires
        t.wf(),
        no_super_calls(t),
    ensures
        !super_call_in(t, n),
    decreases t.len() - n, t.children(n).len() + 1,
{
    if t.valid_node(n) {
        lemma_no_child_super(t, n, t.children(n).len() as int);
    }
}

proof fn lemma_no_child_super(t: &SyntaxTree, n: int, k: int)
    requires
        t.wf(),
        no_super_calls(t),
    ensures
        !child_super_call(t, n, k),
    decreases t.len() - n, k,
{
    if k > 0 && t.valid_node(n) {
        lemma_no_child_super(t, n, k - 1);
        let c = t.children(n)[k - 1];
        if n < c < t.len() {
            assert(!super_call(t, c as int));
            lemma_no_super_in(t, c as int);
        }
    }
}

/// In a class with an `extends` clause (a `class_heritage` child), a
/// constructor in the class body is reported, over its whole span, when no
/// `super()` call stands anywhere in the tree.
pub proof fn lemma_derived_constructor_reported(t: &SyntaxTree, n: int, h: int, b: usize, i: int)
    requires
        t.wf(),
        t.valid_node(n),
        t.kind_is(n, "class_declaration"),
        0 <= h < t.children(n).len(),
        t.kind_is(t.children(n)[h] as int, "class_heritage"),
        t.field(n, "body") == Some(b),
        0 <= i < t.named_children(b as int).len(),
        t.kind_is(t.named_children(b as int)[i] as int, "method_definition"),
        t.field(t.named_children(b as int)[i] as int, "name") matches Some(nm) && t.text_is(
            nm as int,
            "constructor",
        ),
        t.field(t.named_children(b as int)[i] as int, "body") is Some,
        no_super_calls(t),
    ensures
        ConstructorSuper.spec_reports(t, n).contains(
            plain(
                t.start(t.named_children(b as int)[i] as int),
                t.end(t.named_children(b as int)[i] as int),
                "Expected super() call in constructor of derived class."@,
            ),
        ),
{
    let cs = t.named_children(b as int);
    let c = cs[i] as int;
    assert(extends(t, n));
    lemma_field_valid(t, n, "body"@, 0);
    lemma_named_children_valid(t, b as int);
    lemma_field_valid(t, c, "body"@, 0);
    if let Some(cb) = t.field(c, "body") {
        lemma_no_super_in(t, cb as int);
    }
    let msg = plain(t.start(c), t.end(c), "Expected super() call in constructor of derived class."@);
    let f = |x: usize| constructor_report(t, x as int);
    assert(f(cs[i]) == seq![msg]);
    assert(f(cs[i])[0] == msg);
    lemma_each_node_has(cs, f, i, msg);
}

/// A class without an `extends` clause (no `heritage` field and no
/// `class_heritage` child) is never reported.
pub proof fn lemma_base_class_not_reported(t: &SyntaxTree, n: int)
    requires
        t.field(n, "heritage") is None,
        forall|j: int|
            0 <= j < t.children(n).len() ==> !t.kind_is(#[trigger] t.children(n)[j] as int, "class_heritage"),
    ensures
        ConstructorSuper.spec_reports(t, n).len() == 0,
{
}

/// A member whose body holds a `super()` call among its statements gives no
/// report, in any class.
pub proof fn lemma_super_call_silences(t: &SyntaxTree, c: int, cb: usize, j: int)
    requires
        t.wf(),
        t.valid_node(c),
        t.field(c, "body") == Some(cb),
        0 <= j < t.children(cb as int).len(),
        t.kind_is(t.children(cb as int)[j] as int, "call_expression"),
        t.field(t.children(cb as int)[j] as int, "function") matches Some(f) && t.kind_is(
            f as int,
            "super",
        ),
    ensures
        constructor_report(t, c).len() == 0,
{
    lemma_field_valid(t, c, "body"@, 0);
    lemma_child_valid(t, cb as int, j);
    assert(super_call(t, t.children(cb as int)[j] as int));
    assert(child_super_call(t, cb as int, j + 1));
    lemma_child_super_call_grows(t, cb as int, j + 1, t.children(cb as int).len() as int);
}

} // verus!

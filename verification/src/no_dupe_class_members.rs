use vstd::prelude::*;
use crate::helpers::lemma_named_children_valid;
use crate::diagnostic::{all_within, lemma_concat_within};
use crate::diagnostic::{plain, ReportView, RuleContext, Severity};
use vstd::string::StringExecFns;
use crate::rule::Rule;
use crate::tree::{SyntaxTree, lemma_node_span};

verus! {

/// Disallows a class method whose name and staticness repeat those of an
/// earlier method of the same class body.
#[derive(Clone, Copy, Debug)]
pub struct NoDupeClassMembers;

impl Rule for NoDupeClassMembers {
    open spec fn spec_name(&self) -> Seq<char> {
        "no-dupe-class-members"@
    }

    open spec fn spec_severity(&self) -> Severity {
        Severity::Error
    }

    open spec fn spec_reports(&self, t: &SyntaxTree, n: int) -> Seq<ReportView> {
        if t.kind_is(n, "class_body") {
            duplicate_members(t, t.named_children(n), t.named_children(n).len() as int)
        } else {
            Seq::empty()
        }
    }

    proof fn lemma_reports_within(&self, t: &SyntaxTree, n: int) {
        lemma_named_children_valid(t, n);
        let cs = t.named_children(n);
        assert forall|i: int| 0 <= i < cs.len() implies t.valid_node(#[trigger] cs[i] as int) by {}
        lemma_members_within(t, cs, cs.len() as int);
    }

    fn name(&self) -> &'static str {
        "no-dupe-class-members"
    }

    fn default_severity(&self) -> Severity {
        Severity::Error
    }

    fn on_node(&self, t: &SyntaxTree, node: usize, ctx: &mut RuleContext) {
        if !t.has_kind(node, "class_body") {
            return;
        }
        let members = t.named_children_of(node);
        let ghost before = ctx@;
        let mut i: usize = 0;
        while i < members.len()
            invariant
                t.wf(),
                members@ == t.named_children(node as int),
                forall|j: int| 0 <= j < members@.len() ==> node < #[trigger] members@[j] < t.len(),
                0 <= i <= members@.len(),
                ctx@ == before + duplicate_members(t, members@, i as int),
            decreases members.len() - i,
        {
            let child = members[i];
            if let Some(name) = method_name_of(t, child) {
                let stat = is_static(t, child);
                let mut dup = false;
                let mut j: usize = 0;
                while j < i
                    invariant
                        t.wf(),
                        forall|k: int| 0 <= k < members@.len() ==> node < #[trigger] members@[k] < t.len(),
                        0 <= j <= i < members@.len(),
                        t.valid_node(name as int),
                        dup == declared_before(t, members@, j as int, t.text(name as int), stat),
                    decreases i - j,
                {
                    let other = members[j];
                    if let Some(w) = method_name_of(t, other) {
                        if t.same_text(w, name) && is_static(t, other) == stat {
                            dup = true;
                        }
                    }
                    j = j + 1;
                }
                if dup {
                    let mut msg = String::from_str("Duplicate name '");
                    msg.append(t.text_string(name).as_str());
                    msg.append("'.");
                    ctx.report_string(t.start_byte(child), t.end_byte(child), msg);
                }
            }
            i = i + 1;
        }
    }
}

/// The name of a method definition.
pub open spec fn method_name(t: &SyntaxTree, c: int) -> Option<usize> {
    if t.kind_is(c, "method_definition") {
        t.field(c, "name")
    } else {
        None
    }
}

fn method_name_of(t: &SyntaxTree, c: usize) -> (r: Option<usize>)
    requires
        t.wf(),
        t.valid_node(c as int),
    ensures
        r == method_name(t, c as int),
        r matches Some(v) ==> t.valid_node(v as int),
{
    if t.has_kind(c, "method_definition") {
        t.child_by_field_name(c, "name")
    } else {
        None
    }
}

/// A member with a `static` keyword among its children.
pub open spec fn static_member(t: &SyntaxTree, c: int) -> bool {
    exists|j: int|
        0 <= j < t.children(c).len() && t.kind_is(#[trigger] t.children(c)[j] as int, "static")
}

fn is_static(t: &SyntaxTree, c: usize) -> (r: bool)
    requires
        t.wf(),
        t.valid_node(c as int),
    ensures
        r == static_member(t, c as int),
{
    proof {
        assert(t.node_wf(c as int));
    }
    let kids = &t.nodes[c].children;
    let mut j: usize = 0;
    while j < kids.len()
        invariant
            t.wf(),
            kids@ == t.children(c as int),
            t.node_wf(c as int),
            0 <= j <= kids@.len(),
            forall|k: int| 0 <= k < j ==> !t.kind_is(#[trigger] kids@[k] as int, "static"),
        decreases kids.len() - j,
    {
        if t.has_kind(kids[j], "static") {
            return true;
        }
        j = j + 1;
    }
    false
}

/// One of the first `j` members is a method named `text` with staticness `stat`.
pub open spec fn declared_before(
    t: &SyntaxTree,
    members: Seq<usize>,
    j: int,
    text: Seq<u8>,
    stat: bool,
) -> bool {
    exists|k: int|
        0 <= k < j && match method_name(t, #[trigger] members[k] as int) {
            Some(w) => t.text(w as int) == text && static_member(t, members[k] as int) == stat,
            None => false,
        }
}

/// Reports for the methods among the first `k` members that repeat an earlier
/// method's name and staticness.
pub open spec fn duplicate_members(t: &SyntaxTree, members: Seq<usize>, k: int) -> Seq<ReportView>
    decreases k,
{
    if k <= 0 {
        Seq::empty()
    } else {
        let c = members[k - 1] as int;
        duplicate_members(t, members, k - 1) + match method_name(t, c) {
            Some(v) if declared_before(t, members, k - 1, t.text(v as int), static_member(t, c)) => seq![
                plain(t.start(c), t.end(c), "Duplicate name '"@ + t.text_chars(v as int) + "'."@),
            ],
            _ => Seq::empty(),
        }
    }
}

proof fn lemma_members_within(t: &SyntaxTree, members: Seq<usize>, k: int)
    requires
        t.wf(),
        t.bytes().len() <= u32::MAX,
        k <= members.len(),
        forall|i: int| 0 <= i < members.len() ==> t.valid_node(#[trigger] members[i] as int),
    ensures
        all_within(duplicate_members(t, members, k), t.bytes().len() as int),
    decreases k,
{
    if k > 0 {
        lemma_members_within(t, members, k - 1);
        let c = members[k - 1] as int;
        lemma_node_span(t, c);
        lemma_concat_within(
            duplicate_members(t, members, k - 1),
            match method_name(t, c) {
                Some(v) if declared_before(t, members, k - 1, t.text(v as int), static_member(t, c)) => seq![
                    plain(t.start(c), t.end(c), "Duplicate name '"@ + t.text_chars(v as int) + "'."@),
                ],
                _ => Seq::empty(),
            },
            t.bytes().len() as int,
        );
    }
}

} // verus!

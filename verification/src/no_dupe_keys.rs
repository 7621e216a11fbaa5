use vstd::prelude::*;
use crate::tree::lemma_field_valid;
use crate::helpers::lemma_named_children_valid;
use crate::diagnostic::{all_within, lemma_concat_within};
use crate::diagnostic::{plain, ReportView, RuleContext, Severity};
use vstd::string::StringExecFns;
use crate::text::{bytes_to_string, range_of, slice_range, text_chars, trim, trimmed_equals};
use crate::rule::Rule;
use crate::tree::{SyntaxTree, lemma_node_span};

verus! {

/// Disallows duplicate keys in object literals. A getter and a setter may
/// share a key; any other pair of properties with the same key text clashes,
/// and each clashing property is reported without being recorded.
///
/// What a key has been used for so far is found again by rescanning the
/// properties before the current one, not kept in a `HashMap` keyed by the
/// key's text: with a `String` key such a map has no specification here to
/// prove the lookups against, whereas the rescan gives the same answer, stated
/// as [`key_info`].
#[derive(Clone, Copy, Debug)]
pub struct NoDupeKeys;

impl Rule for NoDupeKeys {
    open spec fn spec_name(&self) -> Seq<char> {
        "no-dupe-keys"@
    }

    open spec fn spec_severity(&self) -> Severity {
        Severity::Error
    }

    open spec fn spec_reports(&self, t: &SyntaxTree, n: int) -> Seq<ReportView> {
        if t.kind_is(n, "object") {
            duplicate_keys(t, t.named_children(n), t.named_children(n).len() as int)
        } else {
            Seq::empty()
        }
    }

    proof fn lemma_reports_within(&self, t: &SyntaxTree, n: int) {
        lemma_named_children_valid(t, n);
        let cs = t.named_children(n);
        assert forall|i: int| 0 <= i < cs.len() implies t.valid_node(#[trigger] cs[i] as int) by {}
        lemma_keys_within(t, cs, cs.len() as int);
    }

    fn name(&self) -> &'static str {
        "no-dupe-keys"
    }

    fn default_severity(&self) -> Severity {
        Severity::Error
    }

    fn on_node(&self, t: &SyntaxTree, node: usize, ctx: &mut RuleContext) {
        if !t.has_kind(node, "object") {
            return;
        }
        let children = t.named_children_of(node);
        let mut props: Vec<Option<(usize, PropertyKind)>> = Vec::new();
        let mut p: usize = 0;
        while p < children.len()
            invariant
                t.wf(),
                children@ == t.named_children(node as int),
                forall|j: int| 0 <= j < children@.len() ==> node < #[trigger] children@[j] < t.len(),
                0 <= p <= children@.len(),
                props@.len() == p,
                forall|j: int| 0 <= j < p ==> #[trigger] props@[j] == property(t, children@[j] as int),
                forall|j: int| 0 <= j < p ==> valid_property(t, #[trigger] props@[j]),
            decreases children.len() - p,
        {
            props.push(property_of(t, children[p]));
            p = p + 1;
        }
        let ghost before = ctx@;
        let mut i: usize = 0;
        while i < children.len()
            invariant
                t.wf(),
                children@ == t.named_children(node as int),
                props@.len() == children@.len(),
                forall|j: int| 0 <= j < props@.len() ==> #[trigger] props@[j] == property(t, children@[j] as int),
                forall|j: int| 0 <= j < props@.len() ==> valid_property(t, #[trigger] props@[j]),
                0 <= i <= children@.len(),
                ctx@ == before + duplicate_keys(t, children@, i as int),
            decreases children.len() - i,
        {
            if let Some((key, kind)) = props[i] {
                proof {
                    assert(valid_property(t, props@[i as int]));
                }
                let mut info = KeyInfo { has_get: false, has_set: false, has_value: false };
                let mut j: usize = 0;
                while j < i
                    invariant
                        t.wf(),
                        props@.len() == children@.len(),
                        forall|k: int| 0 <= k < props@.len() ==> #[trigger] props@[k] == property(t, children@[k] as int),
                        forall|k: int| 0 <= k < props@.len() ==> valid_property(t, #[trigger] props@[k]),
                        0 <= j <= i < children@.len(),
                        t.valid_node(key as int),
                        info == key_info(t, children@, j as int, t.text(key as int)),
                    decreases i - j,
                {
                    if let Some((other, other_kind)) = props[j] {
                        proof {
                            assert(valid_property(t, props@[j as int]));
                        }
                        if t.same_text(other, key) && !clashes_with(other_kind, info) {
                            info = recorded(other_kind, info);
                        }
                    }
                    j = j + 1;
                }
                if clashes_with(kind, info) {
                    let mut msg = String::from_str("Duplicate key '");
                    msg.append(t.text_string(key).as_str());
                    msg.append("'.");
                    ctx.report_string(t.start_byte(key), t.end_byte(key), msg);
                }
            }
            i = i + 1;
        }
    }
}

/// How an object property defines its key.
#[derive(Clone, Copy, Debug, PartialEq, Eq, Structural)]
pub enum PropertyKind {
    Value,
    Getter,
    Setter,
}

/// What the properties seen so far have defined for one key.
#[derive(Clone, Copy, Debug, PartialEq, Eq, Structural)]
pub struct KeyInfo {
    pub has_get: bool,
    pub has_set: bool,
    pub has_value: bool,
}

/// The kind of method definition `c` with name `name`: a getter or setter when
/// the text before the name, trimmed, is `get` or `set`.
pub open spec fn accessor_kind(t: &SyntaxTree, c: int, name: int) -> PropertyKind {
    let before = trim(
        text_chars(range_of(t.bytes(), t.node(c).start_byte as int, t.node(name).start_byte as int)),
    );
    if before == "get"@ {
        PropertyKind::Getter
    } else if before == "set"@ {
        PropertyKind::Setter
    } else {
        PropertyKind::Value
    }
}

/// The key node and kind of object member `c`, if it defines a key.
pub open spec fn property(t: &SyntaxTree, c: int) -> Option<(usize, PropertyKind)> {
    if t.kind_is(c, "pair") {
        match t.field(c, "key") {
            Some(k) => Some((k, PropertyKind::Value)),
            None => None,
        }
    } else if t.kind_is(c, "method_definition") {
        match t.field(c, "name") {
            Some(nm) => Some((nm, accessor_kind(t, c, nm as int))),
            None => None,
        }
    } else if t.kind_is(c, "shorthand_property_identifier") {
        Some((c as usize, PropertyKind::Value))
    } else {
        None
    }
}

pub open spec fn valid_property(t: &SyntaxTree, p: Option<(usize, PropertyKind)>) -> bool {
    match p {
        Some((k, _)) => t.valid_node(k as int),
        None => true,
    }
}

fn property_of(t: &SyntaxTree, c: usize) -> (r: Option<(usize, PropertyKind)>)
    requires
        t.wf(),
        t.valid_node(c as int),
    ensures
        r == property(t, c as int),
        valid_property(t, r),
{
    if t.has_kind(c, "pair") {
        match t.child_by_field_name(c, "key") {
            Some(k) => Some((k, PropertyKind::Value)),
            None => None,
        }
    } else if t.has_kind(c, "method_definition") {
        match t.child_by_field_name(c, "name") {
            Some(nm) => {
                proof {
                    assert(t.node_wf(c as int));
                    assert(t.node_wf(nm as int));
                }
                let bytes = t.source_bytes();
                let prefix = slice_range(bytes, t.nodes[c].start_byte, t.nodes[nm].start_byte);
                let text = bytes_to_string(prefix);
                let kind = if trimmed_equals(text.as_str(), "get") {
                    PropertyKind::Getter
                } else if trimmed_equals(text.as_str(), "set") {
                    PropertyKind::Setter
                } else {
                    PropertyKind::Value
                };
                Some((nm, kind))
            },
            None => None,
        }
    } else if t.has_kind(c, "shorthand_property_identifier") {
        Some((c, PropertyKind::Value))
    } else {
        None
    }
}

/// A property of kind `kind` clashes with what `info` records.
pub open spec fn clashes(kind: PropertyKind, info: KeyInfo) -> bool {
    match kind {
        PropertyKind::Getter => info.has_get || info.has_value,
        PropertyKind::Setter => info.has_set || info.has_value,
        PropertyKind::Value => info.has_value || info.has_get || info.has_set,
    }
}

fn clashes_with(kind: PropertyKind, info: KeyInfo) -> (r: bool)
    ensures
        r == clashes(kind, info),
{
    match kind {
        PropertyKind::Getter => info.has_get || info.has_value,
        PropertyKind::Setter => info.has_set || info.has_value,
        PropertyKind::Value => info.has_value || info.has_get || info.has_set,
    }
}

/// `info` with a property of kind `kind` recorded.
pub open spec fn record(kind: PropertyKind, info: KeyInfo) -> KeyInfo {
    match kind {
        PropertyKind::Getter => KeyInfo { has_get: true, ..info },
        PropertyKind::Setter => KeyInfo { has_set: true, ..info },
        PropertyKind::Value => KeyInfo { has_value: true, ..info },
    }
}

fn recorded(kind: PropertyKind, info: KeyInfo) -> (r: KeyInfo)
    ensures
        r == record(kind, info),
{
    match kind {
        PropertyKind::Getter => KeyInfo { has_get: true, ..info },
        PropertyKind::Setter => KeyInfo { has_set: true, ..info },
        PropertyKind::Value => KeyInfo { has_value: true, ..info },
    }
}

/// What the first `i` members record for the key with text `key`: each member
/// with that key is recorded unless it clashes with what came before it.
pub open spec fn key_info(t: &SyntaxTree, members: Seq<usize>, i: int, key: Seq<u8>) -> KeyInfo
    decreases i,
{
    if i <= 0 {
        KeyInfo { has_get: false, has_set: false, has_value: false }
    } else {
        let prev = key_info(t, members, i - 1, key);
        match property(t, members[i - 1] as int) {
            Some((k, kind)) if t.text(k as int) == key && !clashes(kind, prev) => record(kind, prev),
            _ => prev,
        }
    }
}

/// Reports for the members among the first `k` whose key clashes with the
/// members before them.
pub open spec fn duplicate_keys(t: &SyntaxTree, members: Seq<usize>, k: int) -> Seq<ReportView>
    decreases k,
{
    if k <= 0 {
        Seq::empty()
    } else {
        duplicate_keys(t, members, k - 1) + match property(t, members[k - 1] as int) {
            Some((key, kind)) if clashes(kind, key_info(t, members, k - 1, t.text(key as int))) => seq![
                plain(
                    t.start(key as int),
                    t.end(key as int),
                    "Duplicate key '"@ + t.text_chars(key as int) + "'."@,
                ),
            ],
            _ => Seq::empty(),
        }
    }
}

proof fn lemma_keys_within(t: &SyntaxTree, members: Seq<usize>, k: int)
    requires
        t.wf(),
        t.bytes().len() <= u32::MAX,
        k <= members.len(),
        forall|i: int| 0 <= i < members.len() ==> t.valid_node(#[trigger] members[i] as int),
    ensures
        all_within(duplicate_keys(t, members, k), t.bytes().len() as int),
    decreases k,
{
    if k > 0 {
        lemma_keys_within(t, members, k - 1);
        let c = members[k - 1] as int;
        lemma_node_span(t, c);
        lemma_field_valid(t, c, "key"@, 0);
        lemma_field_valid(t, c, "name"@, 0);
        if let Some((key, _)) = property(t, c) {
            lemma_node_span(t, key as int);
        }
        lemma_concat_within(
            duplicate_keys(t, members, k - 1),
            match property(t, members[k - 1] as int) {
                Some((key, kind)) if clashes(kind, key_info(t, members, k - 1, t.text(key as int))) => seq![
                    plain(
                        t.start(key as int),
                        t.end(key as int),
                        "Duplicate key '"@ + t.text_chars(key as int) + "'."@,
                    ),
                ],
                _ => Seq::empty(),
            },
            t.bytes().len() as int,
        );
    }
}

/// Property `j` of `members` adds a report to those of the properties before
/// it.
pub open spec fn reported_at(t: &SyntaxTree, members: Seq<usize>, j: int) -> bool {
    duplicate_keys(t, members, j + 1).len() > duplicate_keys(t, members, j).len()
}

/// One getter and one setter: the only two kinds that may share a key.
pub open spec fn accessor_pair(a: PropertyKind, b: PropertyKind) -> bool {
    ||| (a == PropertyKind::Getter && b == PropertyKind::Setter)
    ||| (a == PropertyKind::Setter && b == PropertyKind::Getter)
}

/// Among the first `j` properties, one with key text `key` and kind `kind`
/// was not reported itself.
pub open spec fn kept_before(
    t: &SyntaxTree,
    members: Seq<usize>,
    j: int,
    key: Seq<u8>,
    kind: PropertyKind,
) -> bool {
    exists|i: int|
        #![trigger members[i]]
        0 <= i < j && match property(t, members[i] as int) {
            Some((k, d)) => d == kind && t.text(k as int) == key && !reported_at(t, members, i),
            None => false,
        }
}

/// Among the first `j` properties, one with key text `key` was not reported
/// itself and is not the other half of a getter and setter pair with a
/// property of kind `kind`.
pub open spec fn clashing_before(
    t: &SyntaxTree,
    members: Seq<usize>,
    j: int,
    key: Seq<u8>,
    kind: PropertyKind,
) -> bool {
    exists|i: int|
        #![trigger members[i]]
        0 <= i < j && match property(t, members[i] as int) {
            Some((k, d)) => !accessor_pair(d, kind) && t.text(k as int) == key && !reported_at(
                t,
                members,
                i,
            ),
            None => false,
        }
}

proof fn lemma_reported_at(t: &SyntaxTree, members: Seq<usize>, j: int)
    requires
        0 <= j,
    ensures
        reported_at(t, members, j) == match property(t, members[j] as int) {
            Some((k, kind)) => clashes(kind, key_info(t, members, j, t.text(k as int))),
            None => false,
        },
{
}

proof fn lemma_key_info(t: &SyntaxTree, members: Seq<usize>, j: int, key: Seq<u8>)
    requires
        0 <= j,
    ensures
        key_info(t, members, j, key).has_get == kept_before(t, members, j, key, PropertyKind::Getter),
        key_info(t, members, j, key).has_set == kept_before(t, members, j, key, PropertyKind::Setter),
        key_info(t, members, j, key).has_value == kept_before(t, members, j, key, PropertyKind::Value),
    decreases j,
{
    if j > 0 {
        lemma_key_info(t, members, j - 1, key);
        lemma_reported_at(t, members, j - 1);
        assert forall|kind: PropertyKind| kept_before(t, members, j, key, kind) == (kept_before(
            t,
            members,
            j - 1,
            key,
            kind,
        ) || match property(t, members[j - 1] as int) {
            Some((k, d)) => d == kind && t.text(k as int) == key && !reported_at(t, members, j - 1),
            None => false,
        }) by {
            if kept_before(t, members, j, key, kind) {
                let i = choose|i: int|
                    #![trigger members[i]]
                    0 <= i < j && match property(t, members[i] as int) {
                        Some((k, d)) => d == kind && t.text(k as int) == key && !reported_at(
                            t,
                            members,
                            i,
                        ),
                        None => false,
                    };
                if i < j - 1 {
                    assert(kept_before(t, members, j - 1, key, kind));
                }
            }
            if kept_before(t, members, j - 1, key, kind) {
                let i = choose|i: int|
                    #![trigger members[i]]
                    0 <= i < j - 1 && match property(t, members[i] as int) {
                        Some((k, d)) => d == kind && t.text(k as int) == key && !reported_at(
                            t,
                            members,
                            i,
                        ),
                        None => false,
                    };
                assert(kept_before(t, members, j, key, kind));
            }
            if match property(t, members[j - 1] as int) {
                Some((k, d)) => d == kind && t.text(k as int) == key && !reported_at(t, members, j - 1),
                None => false,
            } {
                assert(members[j - 1] == members[j - 1]);
                assert(kept_before(t, members, j, key, kind));
            }
        }
        assert(kept_before(t, members, j, key, PropertyKind::Getter) == (kept_before(
            t,
            members,
            j - 1,
            key,
            PropertyKind::Getter,
        ) || match property(t, members[j - 1] as int) {
            Some((k, d)) => d == PropertyKind::Getter && t.text(k as int) == key && !reported_at(
                t,
                members,
                j - 1,
            ),
            None => false,
        }));
        assert(kept_before(t, members, j, key, PropertyKind::Setter) == (kept_before(
            t,
            members,
            j - 1,
            key,
            PropertyKind::Setter,
        ) || match property(t, members[j - 1] as int) {
            Some((k, d)) => d == PropertyKind::Setter && t.text(k as int) == key && !reported_at(
                t,
                members,
                j - 1,
            ),
            None => false,
        }));
        assert(kept_before(t, members, j, key, PropertyKind::Value) == (kept_before(
            t,
            members,
            j - 1,
            key,
            PropertyKind::Value,
        ) || match property(t, members[j - 1] as int) {
            Some((k, d)) => d == PropertyKind::Value && t.text(k as int) == key && !reported_at(
                t,
                members,
                j - 1,
            ),
            None => false,
        }));
    }
}

/// Only a getter and a setter may share a key: a property is reported
/// exactly when an earlier property of the same object literal has the same
/// key text, was not reported itself, and does not make a getter and setter
/// pair with it. A member that is no property is never reported.
pub proof fn lemma_duplicate_key_reported(t: &SyntaxTree, members: Seq<usize>, j: int)
    requires
        0 <= j,
    ensures
        match property(t, members[j] as int) {
            Some((k, kind)) => reported_at(t, members, j) == clashing_before(
                t,
                members,
                j,
                t.text(k as int),
                kind,
            ),
            None => !reported_at(t, members, j),
        },
{
    lemma_reported_at(t, members, j);
    if let Some((k, kind)) = property(t, members[j] as int) {
        let key = t.text(k as int);
        lemma_key_info(t, members, j, key);
        if clashing_before(t, members, j, key, kind) {
            let i = choose|i: int|
                #![trigger members[i]]
                0 <= i < j && match property(t, members[i] as int) {
                    Some((k2, d)) => !accessor_pair(d, kind) && t.text(k2 as int) == key
                        && !reported_at(t, members, i),
                    None => false,
                };
            if let Some((k2, d)) = property(t, members[i] as int) {
                assert(kept_before(t, members, j, key, d));
            }
        }
        let info = key_info(t, members, j, key);
        if clashes(kind, info) {
            if info.has_get && kind != PropertyKind::Setter {
                let i = choose|i: int|
                    #![trigger members[i]]
                    0 <= i < j && match property(t, members[i] as int) {
                        Some((k2, d)) => d == PropertyKind::Getter && t.text(k2 as int) == key
                            && !reported_at(t, members, i),
                        None => false,
                    };
                assert(clashing_before(t, members, j, key, kind));
            } else if info.has_set && kind != PropertyKind::Getter {
                let i = choose|i: int|
                    #![trigger members[i]]
                    0 <= i < j && match property(t, members[i] as int) {
                        Some((k2, d)) => d == PropertyKind::Setter && t.text(k2 as int) == key
                            && !reported_at(t, members, i),
                        None => false,
                    };
                assert(clashing_before(t, members, j, key, kind));
            } else {
                assert(info.has_value);
                let i = choose|i: int|
                    #![trigger members[i]]
                    0 <= i < j && match property(t, members[i] as int) {
                        Some((k2, d)) => d == PropertyKind::Value && t.text(k2 as int) == key
                            && !reported_at(t, members, i),
                        None => false,
                    };
                assert(clashing_before(t, members, j, key, kind));
            }
        }
    }
}

} // verus!

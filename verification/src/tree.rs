//! The syntax tree that the rules inspect.
//!
//! Nodes live in one vector and point to each other by index. A node's
//! children have larger indices than the node and its parent a smaller one,
//! which is what makes walks up and down the tree terminate.
use vstd::prelude::*;
use vstd::string::StringSliceAdditionalSpecFns;
use crate::text::{bytes_eq, bytes_to_string, str_eq, text_chars};

verus! {

/// One node of a syntax tree.
pub struct SyntaxNode {
    /// The grammar's name for the node (`"if_statement"`, `"!"`, ...).
    pub kind: String,
    /// Named nodes stand for grammar rules; anonymous ones for literal tokens.
    pub is_named: bool,
    /// The node or one of its descendants is a syntax error.
    pub has_error: bool,
    /// Byte offset of the node's first byte in the source.
    pub start_byte: usize,
    /// Byte offset just past the node's last byte.
    pub end_byte: usize,
    /// Zero-based line on which the node starts.
    pub start_row: usize,
    /// Zero-based line on which the node ends.
    pub end_row: usize,
    /// Index of the enclosing node, `None` for the root.
    pub parent: Option<usize>,
    /// Indices of the child nodes, in source order.
    pub children: Vec<usize>,
    /// The field name under which each child stands, parallel to `children`.
    pub fields: Vec<Option<String>>,
}

/// A parsed source file.
pub struct SyntaxTree {
    /// The source text.
    pub source: String,
    /// All nodes; the root, when there is one, is node 0.
    pub nodes: Vec<SyntaxNode>,
}

impl SyntaxTree {
    /// The UTF-8 bytes of the source.
    pub open spec fn bytes(&self) -> Seq<u8> {
        encode_utf8_of(self.source@)
    }

    pub open spec fn len(&self) -> int {
        self.nodes@.len() as int
    }

    pub open spec fn valid_node(&self, n: int) -> bool {
        0 <= n < self.len()
    }

    pub open spec fn node(&self, n: int) -> SyntaxNode {
        self.nodes@[n]
    }

    pub open spec fn node_wf(&self, n: int) -> bool {
        node_ok(self.nodes@, n, self.bytes().len() as int)
    }

    /// Well-formedness: byte ranges lie in the source, every child has a larger
    /// index than its parent node, and every parent a smaller one.
    pub open spec fn wf(&self) -> bool {
        nodes_wf(self.nodes@, self.bytes().len() as int)
    }

    pub open spec fn kind(&self, n: int) -> Seq<char> {
        self.node(n).kind@
    }

    pub open spec fn kind_is(&self, n: int, k: &str) -> bool {
        self.kind(n) == k@
    }

    /// The node's text as bytes.
    pub open spec fn text(&self, n: int) -> Seq<u8> {
        self.bytes().subrange(self.node(n).start_byte as int, self.node(n).end_byte as int)
    }

    pub open spec fn text_is(&self, n: int, s: &str) -> bool {
        self.text(n) == s.spec_bytes()
    }

    /// The node's text as characters.
    pub open spec fn text_chars(&self, n: int) -> Seq<char> {
        text_chars(self.text(n))
    }

    pub open spec fn start(&self, n: int) -> u32 {
        self.node(n).start_byte as u32
    }

    pub open spec fn end(&self, n: int) -> u32 {
        self.node(n).end_byte as u32
    }

    pub open spec fn parent(&self, n: int) -> Option<usize> {
        self.node(n).parent
    }

    pub open spec fn children(&self, n: int) -> Seq<usize> {
        self.node(n).children@
    }

    pub open spec fn is_named(&self, n: int) -> bool {
        self.node(n).is_named
    }

    /// Whether child number `j` of node `n` stands under field `name`.
    pub open spec fn child_has_field(&self, n: int, j: int, name: Seq<char>) -> bool {
        match self.node(n).fields@[j] {
            Some(f) => f@ == name,
            None => false,
        }
    }

    /// The first child at position `j` or later that stands under field `name`.
    pub open spec fn field_from(&self, n: int, name: Seq<char>, j: int) -> Option<usize>
        decreases self.children(n).len() - j,
    {
        if j < 0 || j >= self.children(n).len() {
            None
        } else if self.child_has_field(n, j, name) {
            Some(self.children(n)[j])
        } else {
            self.field_from(n, name, j + 1)
        }
    }

    /// The first child of `n` that stands under field `name`.
    pub open spec fn field(&self, n: int, name: &str) -> Option<usize> {
        self.field_from(n, name@, 0)
    }

    /// The named children among the first `k` children of `n`.
    pub open spec fn named_prefix(&self, n: int, k: int) -> Seq<usize>
        decreases k,
    {
        if k <= 0 {
            Seq::empty()
        } else {
            let c = self.children(n)[k - 1];
            if self.is_named(c as int) {
                self.named_prefix(n, k - 1).push(c)
            } else {
                self.named_prefix(n, k - 1)
            }
        }
    }

    /// The named children of `n`, in order.
    pub open spec fn named_children(&self, n: int) -> Seq<usize> {
        self.named_prefix(n, self.children(n).len() as int)
    }

    pub open spec fn named_child_count(&self, n: int) -> int {
        self.named_children(n).len() as int
    }

    pub open spec fn named_child(&self, n: int, i: int) -> Option<usize> {
        if 0 <= i < self.named_child_count(n) {
            Some(self.named_children(n)[i])
        } else {
            None
        }
    }

    /// Position of `c` among the children of `p`, searching from `j`.
    pub open spec fn position_from(&self, p: int, c: int, j: int) -> Option<int>
        decreases self.children(p).len() - j,
    {
        if j < 0 || j >= self.children(p).len() {
            None
        } else if self.children(p)[j] == c {
            Some(j)
        } else {
            self.position_from(p, c, j + 1)
        }
    }

    /// The first named child of `p` at position `j` or later.
    pub open spec fn named_from(&self, p: int, j: int) -> Option<usize>
        decreases self.children(p).len() - j,
    {
        if j < 0 || j >= self.children(p).len() {
            None
        } else if self.is_named(self.children(p)[j] as int) {
            Some(self.children(p)[j])
        } else {
            self.named_from(p, j + 1)
        }
    }

    /// The next named node after `n` among its parent's children.
    pub open spec fn next_named_sibling(&self, n: int) -> Option<usize> {
        match self.parent(n) {
            Some(p) => match self.position_from(p as int, n, 0) {
                Some(j) => self.named_from(p as int, j + 1),
                None => None,
            },
            None => None,
        }
    }
}

/// Node `n` of `nodes` is well formed for a source of `len` bytes.
pub open spec fn node_ok(nodes: Seq<SyntaxNode>, n: int, len: int) -> bool {
    let nd = nodes[n];
    &&& nd.start_byte <= nd.end_byte <= len
    &&& nd.fields@.len() == nd.children@.len()
    &&& forall|j: int|
        0 <= j < nd.children@.len() ==> n < #[trigger] nd.children@[j] < nodes.len()
    &&& (nd.parent matches Some(p) ==> p < n)
}

/// Every node of `nodes` is well formed for a source of `len` bytes.
pub open spec fn nodes_wf(nodes: Seq<SyntaxNode>, len: int) -> bool {
    forall|n: int| 0 <= n < nodes.len() ==> #[trigger] node_ok(nodes, n, len)
}

/// The UTF-8 encoding of a character sequence.
pub open spec fn encode_utf8_of(s: Seq<char>) -> Seq<u8> {
    vstd::utf8::encode_utf8(s)
}

/// When the source fits in `u32` offsets, a node's span is its byte range,
/// which lies within the source.
pub proof fn lemma_node_span(t: &SyntaxTree, m: int)
    requires
        t.wf(),
        t.valid_node(m),
        t.bytes().len() <= u32::MAX,
    ensures
        t.start(m) == t.node(m).start_byte,
        t.end(m) == t.node(m).end_byte,
        t.start(m) <= t.end(m) <= t.bytes().len(),
{
    assert(node_ok(t.nodes@, m, t.bytes().len() as int));
}

/// The children of a node come after it in the tree.
pub proof fn lemma_child_valid(t: &SyntaxTree, n: int, j: int)
    requires
        t.wf(),
        t.valid_node(n),
        0 <= j < t.children(n).len(),
    ensures
        n < t.children(n)[j] < t.len(),
{
    assert(node_ok(t.nodes@, n, t.bytes().len() as int));
}

/// A field of a node is one of its children, so a later node of the tree.
pub proof fn lemma_field_valid(t: &SyntaxTree, n: int, name: Seq<char>, j: int)
    requires
        t.wf(),
        t.valid_node(n),
    ensures
        t.field_from(n, name, j) matches Some(c) ==> n < c < t.len(),
    decreases t.children(n).len() - j,
{
    if 0 <= j < t.children(n).len() {
        lemma_child_valid(t, n, j);
        lemma_field_valid(t, n, name, j + 1);
    }
}

/// A named child at or after position `j` is a later node of the tree.
pub proof fn lemma_named_from_valid(t: &SyntaxTree, p: int, j: int)
    requires
        t.wf(),
        t.valid_node(p),
    ensures
        t.named_from(p, j) matches Some(c) ==> p < c < t.len(),
    decreases t.children(p).len() - j,
{
    if 0 <= j < t.children(p).len() {
        lemma_child_valid(t, p, j);
        lemma_named_from_valid(t, p, j + 1);
    }
}

impl SyntaxTree {
    /// The source as bytes.
    pub fn source_bytes(&self) -> (r: &[u8])
        ensures
            r@ == self.bytes(),
    {
        self.source.as_str().as_bytes()
    }

    pub fn node_count(&self) -> (r: usize)
        ensures
            r == self.len(),
    {
        self.nodes.len()
    }

    /// Whether node `n` is of kind `k`.
    pub fn has_kind(&self, n: usize, k: &str) -> (r: bool)
        requires
            self.valid_node(n as int),
        ensures
            r == self.kind_is(n as int, k),
    {
        str_eq(self.nodes[n].kind.as_str(), k)
    }

    /// The text of node `n`.
    pub fn node_text(&self, n: usize) -> (r: &[u8])
        requires
            self.wf(),
            self.valid_node(n as int),
        ensures
            r@ == self.text(n as int),
    {
        proof {
            assert(self.node_wf(n as int));
        }
        let b = self.source_bytes();
        &b[self.nodes[n].start_byte..self.nodes[n].end_byte]
    }

    /// Whether the text of node `n` is `s`.
    pub fn text_equals(&self, n: usize, s: &str) -> (r: bool)
        requires
            self.wf(),
            self.valid_node(n as int),
        ensures
            r == self.text_is(n as int, s),
    {
        bytes_eq(self.node_text(n), s.as_bytes())
    }

    /// Whether nodes `a` and `b` have the same text.
    pub fn same_text(&self, a: usize, b: usize) -> (r: bool)
        requires
            self.wf(),
            self.valid_node(a as int),
            self.valid_node(b as int),
        ensures
            r == (self.text(a as int) == self.text(b as int)),
    {
        bytes_eq(self.node_text(a), self.node_text(b))
    }

    /// The text of node `n` as an owned string.
    pub fn text_string(&self, n: usize) -> (r: String)
        requires
            self.wf(),
            self.valid_node(n as int),
        ensures
            r@ == self.text_chars(n as int),
    {
        bytes_to_string(self.node_text(n))
    }

    pub fn start_byte(&self, n: usize) -> (r: u32)
        requires
            self.valid_node(n as int),
        ensures
            r == self.start(n as int),
    {
        self.nodes[n].start_byte as u32
    }

    pub fn end_byte(&self, n: usize) -> (r: u32)
        requires
            self.valid_node(n as int),
        ensures
            r == self.end(n as int),
    {
        self.nodes[n].end_byte as u32
    }

    pub fn parent_of(&self, n: usize) -> (r: Option<usize>)
        requires
            self.wf(),
            self.valid_node(n as int),
        ensures
            r == self.parent(n as int),
            r matches Some(p) ==> p < n,
    {
        proof {
            assert(self.node_wf(n as int));
        }
        self.nodes[n].parent
    }

    /// The first child of `n` that stands under field `name`.
    pub fn child_by_field_name(&self, n: usize, name: &str) -> (r: Option<usize>)
        requires
            self.wf(),
            self.valid_node(n as int),
        ensures
            r == self.field(n as int, name),
            r matches Some(c) ==> n < c < self.len(),
    {
        proof {
            assert(self.node_wf(n as int));
        }
        let nd = &self.nodes[n];
        let mut j: usize = 0;
        while j < nd.children.len()
            invariant
                nd == self.node(n as int),
                self.node_wf(n as int),
                0 <= j <= nd.children@.len(),
                self.field(n as int, name) == self.field_from(n as int, name@, j as int),
            decreases nd.children@.len() - j,
        {
            let hit = match &nd.fields[j] {
                Some(f) => str_eq(f.as_str(), name),
                None => false,
            };
            if hit {
                return Some(nd.children[j]);
            }
            j = j + 1;
        }
        None
    }

    /// The named children of `n`, in order.
    pub fn named_children_of(&self, n: usize) -> (r: Vec<usize>)
        requires
            self.wf(),
            self.valid_node(n as int),
        ensures
            r@ == self.named_children(n as int),
            forall|i: int| 0 <= i < r@.len() ==> n < #[trigger] r@[i] < self.len(),
    {
        proof {
            assert(self.node_wf(n as int));
        }
        let nd = &self.nodes[n];
        let mut out: Vec<usize> = Vec::new();
        let mut j: usize = 0;
        while j < nd.children.len()
            invariant
                nd == self.node(n as int),
                self.node_wf(n as int),
                0 <= j <= nd.children@.len(),
                out@ == self.named_prefix(n as int, j as int),
                forall|i: int| 0 <= i < out@.len() ==> n < #[trigger] out@[i] < self.len(),
            decreases nd.children@.len() - j,
        {
            let c = nd.children[j];
            if self.nodes[c].is_named {
                out.push(c);
            }
            j = j + 1;
        }
        out
    }

    pub fn count_named(&self, n: usize) -> (r: usize)
        requires
            self.wf(),
            self.valid_node(n as int),
        ensures
            r == self.named_child_count(n as int),
    {
        self.named_children_of(n).len()
    }

    pub fn named_child_at(&self, n: usize, i: usize) -> (r: Option<usize>)
        requires
            self.wf(),
            self.valid_node(n as int),
        ensures
            r == self.named_child(n as int, i as int),
            r matches Some(c) ==> n < c < self.len(),
    {
        let v = self.named_children_of(n);
        if i < v.len() {
            Some(v[i])
        } else {
            None
        }
    }

    /// The next named node after `n` among its parent's children.
    pub fn next_named_sibling_of(&self, n: usize) -> (r: Option<usize>)
        requires
            self.wf(),
            self.valid_node(n as int),
        ensures
            r == self.next_named_sibling(n as int),
            r matches Some(s) ==> s < self.len(),
    {
        proof {
            assert(self.node_wf(n as int));
        }
        let p = match self.nodes[n].parent {
            Some(p) => p,
            None => return None,
        };
        proof {
            assert(self.node_wf(p as int));
        }
        let pn = &self.nodes[p];
        let mut j: usize = 0;
        while j < pn.children.len()
            invariant
                pn == self.node(p as int),
                self.node_wf(p as int),
                0 <= j <= pn.children@.len(),
                self.position_from(p as int, n as int, 0) == self.position_from(
                    p as int,
                    n as int,
                    j as int,
                ),
            ensures
                0 <= j <= pn.children@.len(),
                self.position_from(p as int, n as int, 0) == self.position_from(
                    p as int,
                    n as int,
                    j as int,
                ),
                j < pn.children@.len() ==> pn.children@[j as int] == n,
            decreases pn.children@.len() - j,
        {
            if pn.children[j] == n {
                break;
            }
            j = j + 1;
        }
        if j == pn.children.len() {
            return None;
        }
        assert(self.position_from(p as int, n as int, j as int) == Some(j as int));
        let mut k: usize = j + 1;
        while k < pn.children.len()
            invariant
                pn == self.node(p as int),
                self.node_wf(p as int),
                self.parent(n as int) == Some(p),
                j < k <= pn.children@.len(),
                self.position_from(p as int, n as int, 0) == Some(j as int),
                self.named_from(p as int, j + 1) == self.named_from(p as int, k as int),
            decreases pn.children@.len() - k,
        {
            let c = pn.children[k];
            if self.nodes[c].is_named {
                return Some(c);
            }
            k = k + 1;
        }
        None
    }
}

} // verus!

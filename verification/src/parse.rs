//! Building a [`SyntaxTree`] from JavaScript source with tree-sitter.
//!
//! The parser itself is tree-sitter's. What its tree holds is named
//! [`js_parse`]: for each node in preorder, its kind, whether it is named and
//! whether it holds an error, its byte range and rows, the preorder position
//! of its parent, and the field it stands under. A tree cursor walks the tree
//! by preorder position, and this module copies the nodes one by one into the
//! library's own tree type, which is then exactly the copy of `js_parse` of
//! the source (byte ranges clamped to the source, and parent links that do not
//! point backwards dropped, so that the copy is well formed whatever comes
//! back).
use vstd::prelude::*;
use vstd::string::StringExecFns;
use vstd::string::StringSliceAdditionalSpecFns;
use crate::tree::{encode_utf8_of, node_ok, nodes_wf, SyntaxNode, SyntaxTree};
use tree_sitter::{Language, Parser, Tree, TreeCursor};

verus! {

#[verifier::external_type_specification]
#[verifier::external_body]
pub struct ExTree(Tree);

#[verifier::external_type_specification]
#[verifier::external_body]
pub struct ExTreeCursor<'tree>(TreeCursor<'tree>);

/// What tree-sitter records of one node: its kind, whether it is named,
/// whether it is or holds a syntax error, its start and end byte, its start
/// and end row, the preorder position of its parent (none for the root), and
/// the name of the field under which it stands in its parent.
pub type NodeFacts = (Seq<char>, bool, bool, nat, nat, nat, nat, Option<nat>, Option<Seq<char>>);

/// The nodes, in preorder, of the tree that tree-sitter's JavaScript grammar
/// builds for `source`; none where the parser gives no tree.
pub uninterp spec fn js_parse(source: Seq<char>) -> Option<Seq<NodeFacts>>;

/// The nodes, in preorder, that a tree-sitter tree holds.
pub uninterp spec fn tree_nodes(tree: Tree) -> Seq<NodeFacts>;

/// The nodes, in preorder, of the tree that a cursor walks.
pub uninterp spec fn cursor_nodes(cursor: TreeCursor) -> Seq<NodeFacts>;

/// The preorder position of the node on which a cursor stands.
pub uninterp spec fn cursor_at(cursor: TreeCursor) -> nat;

/// The facts of the node on which `cursor` stands.
pub open spec fn current(cursor: TreeCursor) -> NodeFacts {
    cursor_nodes(cursor)[cursor_at(cursor) as int]
}

/// Parses `text` with tree-sitter's JavaScript grammar: a fresh
/// `tree_sitter::Parser` (`Parser::new`), given the grammar
/// (`Parser::set_language` with `Language::new` of
/// `tree_sitter_javascript::LANGUAGE`), parses the text with no earlier tree
/// (`Parser::parse`). The parser starts afresh with the same grammar on every
/// call, so the tree is a function of the text; the contract names its nodes
/// [`js_parse`] of the text, and says that no tree comes back exactly where
/// that name gives none.
#[verifier::external_body]
fn parse_javascript(text: &str) -> (r: Option<Tree>)
    ensures
        r is Some <==> js_parse(text@) is Some,
        r matches Some(t) ==> js_parse(text@) == Some(tree_nodes(t)),
{
    let mut parser = Parser::new();
    match parser.set_language(&Language::new(tree_sitter_javascript::LANGUAGE)) {
        Ok(()) => parser.parse(text, None),
        Err(_) => None,
    }
}

/// `tree_sitter::Tree::walk`: a cursor over the tree's nodes, standing on the
/// root, whose preorder position is 0.
#[verifier::external_body]
fn walk<'t>(tree: &'t Tree) -> (c: TreeCursor<'t>)
    ensures
        cursor_nodes(c) == tree_nodes(*tree),
        cursor_at(c) == 0,
{
    tree.walk()
}

/// `tree_sitter::Node::descendant_count` of the cursor's node: on the root,
/// the number of nodes of the tree.
#[verifier::external_body]
fn subtree_size(c: &TreeCursor) -> (r: usize)
    ensures
        cursor_at(*c) == 0 ==> r == cursor_nodes(*c).len(),
{
    c.node().descendant_count()
}

/// `tree_sitter::TreeCursor::goto_descendant`: moves the cursor to the node at
/// preorder position `i` (the position is handed on as a `u32`).
#[verifier::external_body]
fn goto_descendant(c: &mut TreeCursor, i: usize)
    requires
        i < cursor_nodes(*old(c)).len(),
        i <= u32::MAX,
    ensures
        cursor_nodes(*final(c)) == cursor_nodes(*old(c)),
        cursor_at(*final(c)) == i,
{
    c.goto_descendant(i)
}

/// `tree_sitter::TreeCursor::goto_parent`: moves the cursor to the parent of
/// its node and says so, or says that the node has none and stays.
#[verifier::external_body]
fn goto_parent(c: &mut TreeCursor) -> (r: bool)
    requires
        cursor_at(*old(c)) < cursor_nodes(*old(c)).len(),
    ensures
        cursor_nodes(*final(c)) == cursor_nodes(*old(c)),
        r == (current(*old(c)).7 is Some),
        r ==> current(*old(c)).7 == Some(cursor_at(*final(c))),
        !r ==> cursor_at(*final(c)) == cursor_at(*old(c)),
{
    c.goto_parent()
}

/// `tree_sitter::TreeCursor::descendant_index`: the preorder position of the
/// cursor's node.
#[verifier::external_body]
fn descendant_index(c: &TreeCursor) -> (r: usize)
    ensures
        r == cursor_at(*c),
{
    c.descendant_index()
}

/// `tree_sitter::Node::kind` of the cursor's node, copied into a `String`.
#[verifier::external_body]
fn cursor_kind(c: &TreeCursor) -> (r: String)
    requires
        cursor_at(*c) < cursor_nodes(*c).len(),
    ensures
        r@ == current(*c).0,
{
    c.node().kind().to_string()
}

/// `tree_sitter::Node::is_named` of the cursor's node.
#[verifier::external_body]
fn cursor_is_named(c: &TreeCursor) -> (r: bool)
    requires
        cursor_at(*c) < cursor_nodes(*c).len(),
    ensures
        r == current(*c).1,
{
    c.node().is_named()
}

/// `tree_sitter::Node::has_error` of the cursor's node.
#[verifier::external_body]
fn cursor_has_error(c: &TreeCursor) -> (r: bool)
    requires
        cursor_at(*c) < cursor_nodes(*c).len(),
    ensures
        r == current(*c).2,
{
    c.node().has_error()
}

/// `tree_sitter::Node::start_byte` of the cursor's node.
#[verifier::external_body]
fn cursor_start_byte(c: &TreeCursor) -> (r: usize)
    requires
        cursor_at(*c) < cursor_nodes(*c).len(),
    ensures
        r == current(*c).3,
{
    c.node().start_byte()
}

/// `tree_sitter::Node::end_byte` of the cursor's node.
#[verifier::external_body]
fn cursor_end_byte(c: &TreeCursor) -> (r: usize)
    requires
        cursor_at(*c) < cursor_nodes(*c).len(),
    ensures
        r == current(*c).4,
{
    c.node().end_byte()
}

/// The row of `tree_sitter::Node::start_position` of the cursor's node.
#[verifier::external_body]
fn cursor_start_row(c: &TreeCursor) -> (r: usize)
    requires
        cursor_at(*c) < cursor_nodes(*c).len(),
    ensures
        r == current(*c).5,
{
    c.node().start_position().row
}

/// The row of `tree_sitter::Node::end_position` of the cursor's node.
#[verifier::external_body]
fn cursor_end_row(c: &TreeCursor) -> (r: usize)
    requires
        cursor_at(*c) < cursor_nodes(*c).len(),
    ensures
        r == current(*c).6,
{
    c.node().end_position().row
}

/// `tree_sitter::TreeCursor::field_name`, copied into a `String`: the field
/// under which the cursor's node stands in its parent.
#[verifier::external_body]
fn cursor_field_name(c: &TreeCursor) -> (r: Option<String>)
    requires
        cursor_at(*c) < cursor_nodes(*c).len(),
    ensures
        match r {
            Some(s) => current(*c).8 == Some(s@),
            None => current(*c).8 is None,
        },
{
    c.field_name().map(|s| s.to_string())
}

pub open spec fn opt_chars(o: Option<String>) -> Option<Seq<char>> {
    match o {
        Some(s) => Some(s@),
        None => None,
    }
}

/// The parent of node `j`, kept where it comes before the node.
pub open spec fn link(infos: Seq<NodeFacts>, j: int) -> Option<usize> {
    match infos[j].7 {
        Some(p) => if p < j {
            Some(p as usize)
        } else {
            None
        },
        None => None,
    }
}

/// The nodes among the first `k` whose parent is `p`, in order.
pub open spec fn kids(infos: Seq<NodeFacts>, p: int, k: int) -> Seq<usize>
    decreases k,
{
    if k <= 0 {
        Seq::empty()
    } else {
        kids(infos, p, k - 1) + if link(infos, k - 1) == Some(p as usize) {
            seq![(k - 1) as usize]
        } else {
            Seq::<usize>::empty()
        }
    }
}

/// The end byte of a node, cut at the end of a source of `len` bytes.
pub open spec fn clamped_end(f: NodeFacts, len: int) -> int {
    if f.4 > len {
        len
    } else {
        f.4 as int
    }
}

/// The start byte of a node, no later than its clamped end.
pub open spec fn clamped_start(f: NodeFacts, len: int) -> int {
    if f.3 > clamped_end(f, len) {
        clamped_end(f, len)
    } else {
        f.3 as int
    }
}

/// Node `j` of `nodes` is the copy of node `j` of `infos`, with the children
/// found among the first `k` nodes.
pub open spec fn copied(nodes: Seq<SyntaxNode>, infos: Seq<NodeFacts>, j: int, k: int, len: int) -> bool {
    let nd = nodes[j];
    let f = infos[j];
    &&& nd.kind@ == f.0
    &&& nd.is_named == f.1
    &&& nd.has_error == f.2
    &&& nd.start_byte == clamped_start(f, len)
    &&& nd.end_byte == clamped_end(f, len)
    &&& nd.start_row == f.5
    &&& nd.end_row == f.6
    &&& nd.parent == link(infos, j)
    &&& nd.children@ == kids(infos, j, k)
    &&& nd.fields@.len() == nd.children@.len()
    &&& forall|m: int|
        0 <= m < nd.fields@.len() ==> opt_chars(#[trigger] nd.fields@[m]) == infos[nd.children@[m] as int].8
}

/// `t` is the copy of the nodes `infos`.
pub open spec fn copy_of(t: &SyntaxTree, infos: Seq<NodeFacts>) -> bool {
    &&& t.len() == infos.len()
    &&& forall|j: int|
        0 <= j < infos.len() ==> #[trigger] copied(
            t.nodes@,
            infos,
            j,
            infos.len() as int,
            t.bytes().len() as int,
        )
}

/// `t` is what [`parse`] gives for `source`: a well-formed tree over it that
/// copies tree-sitter's parse of it, or has no nodes where there is no parse
/// (or one of more than `u32::MAX` nodes).
pub open spec fn parse_of(t: &SyntaxTree, source: Seq<char>) -> bool {
    &&& t.wf()
    &&& t.source@ == source
    &&& match js_parse(source) {
        Some(infos) => if infos.len() <= u32::MAX {
            copy_of(t, infos)
        } else {
            t.len() == 0
        },
        None => t.len() == 0,
    }
}

proof fn lemma_kids_none_yet(infos: Seq<NodeFacts>, p: int, k: int)
    requires
        k <= p + 1,
        0 <= p <= usize::MAX,
    ensures
        kids(infos, p, k) == Seq::<usize>::empty(),
    decreases k,
{
    if k > 0 {
        lemma_kids_none_yet(infos, p, k - 1);
        if let Some(q) = link(infos, k - 1) {
            assert(q < k - 1);
        }
        assert(kids(infos, p, k) =~= Seq::<usize>::empty());
    }
}

/// A tree with no nodes over `source`.
fn empty_tree(source: &str) -> (t: SyntaxTree)
    ensures
        t.wf(),
        t.source@ == source@,
        t.len() == 0,
{
    SyntaxTree { source: String::from_str(source), nodes: Vec::new() }
}

/// Parses JavaScript `source` with tree-sitter and copies the parse tree, in
/// preorder, into a [`SyntaxTree`] over the same source: see [`parse_of`].
pub fn parse(source: &str) -> (t: SyntaxTree)
    ensures
        parse_of(&t, source@),
{
    let ts_tree = match parse_javascript(source) {
        Some(x) => x,
        None => return empty_tree(source),
    };
    let ghost infos = tree_nodes(ts_tree);
    let mut cursor = walk(&ts_tree);
    let count = subtree_size(&cursor);
    if count > 4294967295 {
        return empty_tree(source);
    }
    let len = source.as_bytes().len();
    let src = String::from_str(source);
    let mut nodes: Vec<SyntaxNode> = Vec::new();
    let mut i: usize = 0;
    while i < count
        invariant
            count == infos.len(),
            count <= u32::MAX,
            cursor_nodes(cursor) == infos,
            src@ == source@,
            len == encode_utf8_of(src@).len(),
            0 <= i <= count,
            nodes@.len() == i,
            nodes_wf(nodes@, len as int),
            forall|j: int| 0 <= j < i ==> #[trigger] copied(nodes@, infos, j, i as int, len as int),
        decreases count - i,
    {
        goto_descendant(&mut cursor, i);
        let kind = cursor_kind(&cursor);
        let named = cursor_is_named(&cursor);
        let error = cursor_has_error(&cursor);
        let mut end = cursor_end_byte(&cursor);
        if end > len {
            end = len;
        }
        let mut start = cursor_start_byte(&cursor);
        if start > end {
            start = end;
        }
        let start_row = cursor_start_row(&cursor);
        let end_row = cursor_end_row(&cursor);
        let field = cursor_field_name(&cursor);
        let ghost f = infos[i as int];
        let parent: Option<usize> = if goto_parent(&mut cursor) {
            let p = descendant_index(&cursor);
            if p < i {
                Some(p)
            } else {
                None
            }
        } else {
            None
        };
        assert(parent == link(infos, i as int));
        let ghost before = nodes@;
        nodes.push(
            SyntaxNode {
                kind,
                is_named: named,
                has_error: error,
                start_byte: start,
                end_byte: end,
                start_row,
                end_row,
                parent,
                children: Vec::new(),
                fields: Vec::new(),
            },
        );
        let ghost pushed = nodes@;
        if let Some(p) = parent {
            nodes[p].children.push(i);
            nodes[p].fields.push(field);
        }
        proof {
            lemma_kids_none_yet(infos, i as int, i + 1);
            assert forall|j: int| 0 <= j <= i implies #[trigger] copied(
                nodes@,
                infos,
                j,
                i + 1,
                len as int,
            ) by {
                if j < i {
                    assert(copied(before, infos, j, i as int, len as int));
                    assert(nodes@[j].parent == before[j].parent);
                    if parent == Some(j as usize) {
                        assert(nodes@[j].children@ =~= before[j].children@.push(i));
                        assert(kids(infos, j, i + 1) =~= kids(infos, j, i as int).push(i));
                        assert forall|m: int| 0 <= m < nodes@[j].fields@.len() implies opt_chars(
                            #[trigger] nodes@[j].fields@[m],
                        ) == infos[nodes@[j].children@[m] as int].8 by {
                            if m < before[j].fields@.len() {
                                assert(nodes@[j].fields@[m] == before[j].fields@[m]);
                            }
                        }
                    } else {
                        assert(nodes@[j] == before[j]);
                        assert(kids(infos, j, i + 1) =~= kids(infos, j, i as int));
                    }
                } else {
                    assert(nodes@[j].children@ =~= Seq::<usize>::empty());
                }
            }
            assert forall|n: int| 0 <= n < nodes@.len() implies #[trigger] node_ok(
                nodes@,
                n,
                len as int,
            ) by {
                if n < i {
                    assert(node_ok(before, n, len as int));
                    if parent == Some(n as usize) {
                        assert(nodes@[n].children@ =~= before[n].children@.push(i));
                    } else {
                        assert(nodes@[n] == before[n]);
                    }
                }
            }
        }
        i = i + 1;
    }
    let t = SyntaxTree { source: src, nodes };
    assert(t.bytes().len() == len);
    t
}

} // verus!

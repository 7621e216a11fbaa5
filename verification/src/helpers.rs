//! Node predicates and text helpers that several rules share.
use vstd::prelude::*;
use vstd::string::StringExecFns;
use vstd::string::StringSliceAdditionalSpecFns;
use crate::text::{bytes_contain, contains_seq, occurs_at};
use crate::tree::SyntaxTree;

verus! {

/// The node reached from `n` by stepping into parenthesized expressions, as
/// long as they have a first named child.
pub open spec fn unwrapped(t: &SyntaxTree, n: int) -> int
    decreases t.len() - n,
{
    if t.kind_is(n, "parenthesized_expression") {
        match t.named_child(n, 0) {
            Some(c) => {
                if n < c < t.len() {
                    unwrapped(t, c as int)
                } else {
                    n
                }
            },
            None => n,
        }
    } else {
        n
    }
}

/// A named child of a node is a later node of the tree.
pub proof fn lemma_named_child_bounds(t: &SyntaxTree, n: int, i: int)
    requires
        t.wf(),
        t.valid_node(n),
    ensures
        t.named_child(n, i) matches Some(c) ==> n < c < t.len(),
{
    if 0 <= i < t.named_child_count(n) {
        lemma_named_prefix_bounds(t, n, t.children(n).len() as int);
    }
}

pub proof fn lemma_named_prefix_bounds(t: &SyntaxTree, n: int, k: int)
    requires
        t.wf(),
        t.valid_node(n),
        k <= t.children(n).len(),
    ensures
        forall|i: int|
            0 <= i < t.named_prefix(n, k).len() ==> n < #[trigger] t.named_prefix(n, k)[i]
                < t.len(),
    decreases k,
{
    assert(t.node_wf(n));
    if k > 0 {
        lemma_named_prefix_bounds(t, n, k - 1);
        let c = t.children(n)[k - 1];
        assert(n < c < t.len());
        let p = t.named_prefix(n, k - 1);
        if t.is_named(c as int) {
            assert forall|i: int| 0 <= i < p.push(c).len() implies n < #[trigger] p.push(c)[i] < t.len() by {
                if i < p.len() {
                    assert(p.push(c)[i] == p[i]);
                }
            }
        }
    }
}

/// Stepping through parentheses a second time goes nowhere: the node reached
/// is never a parenthesized expression with an expression inside, and
/// unwrapping it again gives it back.
pub proof fn lemma_unwrap_idempotent(t: &SyntaxTree, n: int)
    requires
        t.wf(),
        t.valid_node(n),
    ensures
        t.valid_node(unwrapped(t, n)),
        n <= unwrapped(t, n),
        unwrapped(t, unwrapped(t, n)) == unwrapped(t, n),
    decreases t.len() - n,
{
    lemma_named_child_bounds(t, n, 0);
    if t.kind_is(n, "parenthesized_expression") {
        if let Some(c) = t.named_child(n, 0) {
            lemma_unwrap_idempotent(t, c as int);
        }
    }
}

/// The named children of a node are later nodes of the tree.
pub proof fn lemma_named_children_valid(t: &SyntaxTree, n: int)
    requires
        t.wf(),
        t.valid_node(n),
    ensures
        forall|i: int|
            0 <= i < t.named_children(n).len() ==> n < #[trigger] t.named_children(n)[i] < t.len(),
{
    lemma_named_prefix_bounds(t, n, t.children(n).len() as int);
}

/// Steps through parenthesized expressions to the expression inside.
pub fn unwrap_parens(t: &SyntaxTree, node: usize) -> (r: usize)
    requires
        t.wf(),
        t.valid_node(node as int),
    ensures
        r == unwrapped(t, node as int),
        t.valid_node(r as int),
{
    let mut current = node;
    while t.has_kind(current, "parenthesized_expression")
        invariant
            t.wf(),
            t.valid_node(current as int),
            unwrapped(t, node as int) == unwrapped(t, current as int),
        ensures
            t.valid_node(current as int),
            unwrapped(t, node as int) == current,
        decreases t.len() - current,
    {
        proof {
            lemma_named_child_bounds(t, current as int, 0);
        }
        match t.named_child_at(current, 0) {
            Some(inner) => {
                current = inner;
            },
            None => {
                break;
            },
        }
    }
    current
}

/// Return, throw, break and continue statements.
pub open spec fn terminal(t: &SyntaxTree, n: int) -> bool {
    ||| t.kind_is(n, "return_statement")
    ||| t.kind_is(n, "throw_statement")
    ||| t.kind_is(n, "break_statement")
    ||| t.kind_is(n, "continue_statement")
}

/// Whether node `node` is a return, throw, break or continue statement.
pub fn is_terminal(t: &SyntaxTree, node: usize) -> (r: bool)
    requires
        t.valid_node(node as int),
    ensures
        r == terminal(t, node as int),
{
    t.has_kind(node, "return_statement") || t.has_kind(node, "throw_statement") || t.has_kind(
        node,
        "break_statement",
    ) || t.has_kind(node, "continue_statement")
}

/// Function-like nodes: declarations, expressions, arrows and methods.
pub open spec fn function_like(t: &SyntaxTree, n: int) -> bool {
    ||| t.kind_is(n, "function_declaration")
    ||| t.kind_is(n, "function_expression")
    ||| t.kind_is(n, "arrow_function")
    ||| t.kind_is(n, "method_definition")
}

pub fn is_function_like(t: &SyntaxTree, n: usize) -> (r: bool)
    requires
        t.valid_node(n as int),
    ensures
        r == function_like(t, n as int),
{
    t.has_kind(n, "function_declaration") || t.has_kind(n, "function_expression") || t.has_kind(
        n,
        "arrow_function",
    ) || t.has_kind(n, "method_definition")
}

/// Function-like nodes together with generator functions.
pub open spec fn function_or_generator(t: &SyntaxTree, n: int) -> bool {
    ||| function_like(t, n)
    ||| t.kind_is(n, "generator_function")
    ||| t.kind_is(n, "generator_function_declaration")
}

pub fn is_function_or_generator(t: &SyntaxTree, n: usize) -> (r: bool)
    requires
        t.valid_node(n as int),
    ensures
        r == function_or_generator(t, n as int),
{
    is_function_like(t, n) || t.has_kind(n, "generator_function") || t.has_kind(
        n,
        "generator_function_declaration",
    )
}

/// Nested functions that searches through a function body do not enter.
pub open spec fn nested_function(t: &SyntaxTree, n: int) -> bool {
    ||| t.kind_is(n, "function_declaration")
    ||| t.kind_is(n, "function_expression")
    ||| t.kind_is(n, "arrow_function")
    ||| t.kind_is(n, "generator_function")
    ||| t.kind_is(n, "generator_function_declaration")
}

pub fn is_nested_function(t: &SyntaxTree, n: usize) -> (r: bool)
    requires
        t.valid_node(n as int),
    ensures
        r == nested_function(t, n as int),
{
    t.has_kind(n, "function_declaration") || t.has_kind(n, "function_expression") || t.has_kind(
        n,
        "arrow_function",
    ) || t.has_kind(n, "generator_function") || t.has_kind(n, "generator_function_declaration")
}

/// Loops and switches: the statements that open a level of nesting.
pub open spec fn nesting_statement(t: &SyntaxTree, n: int) -> bool {
    ||| t.kind_is(n, "if_statement")
    ||| t.kind_is(n, "for_statement")
    ||| t.kind_is(n, "for_in_statement")
    ||| t.kind_is(n, "while_statement")
    ||| t.kind_is(n, "do_statement")
    ||| t.kind_is(n, "switch_statement")
}

pub fn is_nesting_statement(t: &SyntaxTree, n: usize) -> (r: bool)
    requires
        t.valid_node(n as int),
    ensures
        r == nesting_statement(t, n as int),
{
    t.has_kind(n, "if_statement") || t.has_kind(n, "for_statement") || t.has_kind(
        n,
        "for_in_statement",
    ) || t.has_kind(n, "while_statement") || t.has_kind(n, "do_statement") || t.has_kind(
        n,
        "switch_statement",
    )
}

/// Whether already lower-cased text mentions falling through: it contains
/// `falls through`, `fallthrough` or `fall through`.
pub open spec fn mentions_fallthrough(lower: Seq<u8>) -> bool {
    ||| contains_seq(lower, "falls through".spec_bytes())
    ||| contains_seq(lower, "fallthrough".spec_bytes())
    ||| contains_seq(lower, "fall through".spec_bytes())
}

/// The full Unicode lower-case mapping of a string, as `str::to_lowercase`
/// computes it.
pub uninterp spec fn lowercase(s: Seq<char>) -> Seq<char>;

/// ASCII bytes with the capital letters `A`..`Z` moved to `a`..`z`.
pub open spec fn ascii_lower_byte(b: u8) -> u8 {
    if 65 <= b <= 90 {
        (b + 32) as u8
    } else {
        b
    }
}

/// The bytes of `s`, each lower-cased as an ASCII letter.
pub open spec fn ascii_lower_bytes(s: Seq<u8>) -> Seq<u8> {
    s.map_values(|b: u8| ascii_lower_byte(b))
}

/// `str::to_lowercase`: the result is the lower-case mapping of the whole
/// argument, named [`lowercase`]. Of the mapping, the contract states only
/// what Unicode's lower-case mapping does to ASCII: on an all-ASCII text it
/// moves each capital letter `A`..`Z` to `a`..`z` and keeps every other byte.
#[verifier::external_body]
fn to_lowercase(s: &str) -> (r: String)
    ensures
        r@ == lowercase(s@),
        vstd::utf8::is_ascii_chars(s@) ==> vstd::utf8::encode_utf8(r@) == ascii_lower_bytes(
            s.spec_bytes(),
        ),
{
    s.to_lowercase()
}

/// Whether lower-cased text mentions falling through.
pub fn lowered_mentions_fallthrough(lower: &str) -> (r: bool)
    ensures
        r == mentions_fallthrough(lower.spec_bytes()),
{
    let b = lower.as_bytes();
    bytes_contain(b, "falls through".as_bytes()) || bytes_contain(b, "fallthrough".as_bytes())
        || bytes_contain(b, "fall through".as_bytes())
}

/// Whether `text` holds a fallthrough comment, in any letter case: its
/// lower-case form mentions falling through. For an all-ASCII text that form
/// is the text with its capital letters lower-cased.
pub fn has_fallthrough_comment(text: &str) -> (r: bool)
    ensures
        r == mentions_fallthrough(vstd::utf8::encode_utf8(lowercase(text@))),
        vstd::utf8::is_ascii_chars(text@) ==> r == mentions_fallthrough(
            ascii_lower_bytes(text.spec_bytes()),
        ),
{
    let lower = to_lowercase(text);
    lowered_mentions_fallthrough(lower.as_str())
}

/// Letter case does not matter: two ASCII texts that differ only in the case
/// of their letters both mention falling through or both do not.
pub proof fn lemma_fallthrough_ignores_case(a: Seq<u8>, b: Seq<u8>)
    requires
        ascii_lower_bytes(a) == ascii_lower_bytes(b),
    ensures
        mentions_fallthrough(ascii_lower_bytes(a)) == mentions_fallthrough(ascii_lower_bytes(b)),
{
}

proof fn lemma_contains_extend(x: Seq<u8>, y: Seq<u8>, pat: Seq<u8>)
    requires
        contains_seq(x, pat),
    ensures
        contains_seq(x + y, pat),
        contains_seq(y + x, pat),
{
    let i = choose|i: int| occurs_at(x, pat, i);
    assert((x + y).subrange(i, i + pat.len()) =~= x.subrange(i, i + pat.len()));
    assert(occurs_at(x + y, pat, i));
    assert((y + x).subrange(y.len() + i, y.len() + i + pat.len()) =~= x.subrange(
        i,
        i + pat.len(),
    ));
    assert(occurs_at(y + x, pat, y.len() + i));
}

/// A fallthrough comment stays one when more text is put before or after
/// it: lower-casing goes byte by byte, and a mention stays inside the longer
/// text.
pub proof fn lemma_fallthrough_survives_concat(a: Seq<u8>, b: Seq<u8>)
    requires
        mentions_fallthrough(ascii_lower_bytes(a)),
    ensures
        mentions_fallthrough(ascii_lower_bytes(a + b)),
        mentions_fallthrough(ascii_lower_bytes(b + a)),
{
    let la = ascii_lower_bytes(a);
    let lb = ascii_lower_bytes(b);
    assert(ascii_lower_bytes(a + b) =~= la + lb);
    assert(ascii_lower_bytes(b + a) =~= lb + la);
    if contains_seq(la, "falls through".spec_bytes()) {
        lemma_contains_extend(la, lb, "falls through".spec_bytes());
    } else if contains_seq(la, "fallthrough".spec_bytes()) {
        lemma_contains_extend(la, lb, "fallthrough".spec_bytes());
    } else {
        lemma_contains_extend(la, lb, "fall through".spec_bytes());
    }
}

} // verus!

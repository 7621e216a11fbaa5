use vstd::prelude::*;
use crate::diagnostic::{all_within, lemma_concat_within};
use crate::diagnostic::{plain, ReportView, RuleContext, Severity};
use vstd::std_specs::iter::IteratorSpec;
use vstd::utf8::{encode_scalar, encode_utf8};
use crate::rule::Rule;
use crate::tree::{SyntaxTree, lemma_node_span};

verus! {

/// Disallows irregular white space characters anywhere in the source:
/// vertical tab, form feed, no-break spaces, the byte order mark, and the
/// Unicode spaces from U+2000 to U+200B, U+202F, U+205F and U+3000. Each is
/// reported over its own bytes.
#[derive(Clone, Copy, Debug)]
pub struct NoIrregularWhitespace;

impl Rule for NoIrregularWhitespace {
    open spec fn spec_name(&self) -> Seq<char> {
        "no-irregular-whitespace"@
    }

    open spec fn spec_severity(&self) -> Severity {
        Severity::Error
    }

    open spec fn spec_reports(&self, t: &SyntaxTree, n: int) -> Seq<ReportView> {
        if t.kind_is(n, "program") {
            whitespace_reports(t.source@, t.source@.len() as int)
        } else {
            Seq::empty()
        }
    }

    proof fn lemma_reports_within(&self, t: &SyntaxTree, n: int) {
        lemma_whitespace_within(t.source@, t.source@.len() as int);
    }

    fn name(&self) -> &'static str {
        "no-irregular-whitespace"
    }

    fn default_severity(&self) -> Severity {
        Severity::Error
    }

    fn on_node(&self, t: &SyntaxTree, node: usize, ctx: &mut RuleContext) {
        if !t.has_kind(node, "program") {
            return;
        }
        broadcast use vstd::string::group_string_axioms;
        let source = t.source.as_str();
        let total = source.as_bytes().len();
        let mut it = source.chars();
        let ghost all = source@;
        let ghost before = ctx@;
        let mut k: usize = 0;
        let mut offset: usize = 0;
        proof {
            lemma_prefix_width(all, 0);
        }
        loop
            invariant
                all == t.source@,
                total == encode_utf8(all).len(),
                it.obeys_prophetic_iter_laws(),
                0 <= k <= all.len(),
                it.remaining() == all.subrange(k as int, all.len() as int),
                offset == prefix_width(all, k as int),
                offset <= total,
                k <= offset,
                ctx@ == before + whitespace_reports(all, k as int),
                before == old(ctx)@,
                t.kind_is(node as int, "program"),
            ensures
                ctx@ == before + whitespace_reports(all, all.len() as int),
            decreases all.len() - k,
        {
            let ghost rest = it.remaining();
            match it.next() {
                Some(ch) => {
                    proof {
                        assert(rest.len() > 0);
                        assert(ch == all[k as int]);
                        lemma_prefix_width(all, k as int + 1);
                        lemma_prefix_step(all, k as int);
                        assert(it.remaining() =~= all.subrange(k + 1, all.len() as int));
                    }
                    let width = utf8_width(ch);
                    if is_irregular(ch) {
                        ctx.report(
                            offset as u32,
                            (offset + width) as u32,
                            "Irregular whitespace not allowed.",
                        );
                    }
                    offset = offset + width;
                    k = k + 1;
                },
                None => {
                    proof {
                        assert(rest.len() == 0);
                    }
                    break;
                },
            }
        }
    }
}

/// The irregular white space characters.
pub open spec fn irregular(c: char) -> bool {
    let u = c as u32;
    ||| u == 0xb
    ||| u == 0xc
    ||| u == 0xa0
    ||| u == 0xfeff
    ||| 0x2000 <= u <= 0x200b
    ||| u == 0x202f
    ||| u == 0x205f
    ||| u == 0x3000
}

fn is_irregular(c: char) -> (r: bool)
    ensures
        r == irregular(c),
{
    let u = c as u32;
    u == 0xb || u == 0xc || u == 0xa0 || u == 0xfeff || (0x2000 <= u && u <= 0x200b) || u == 0x202f
        || u == 0x205f || u == 0x3000
}

/// The byte offset of character `k` of `s`: the length of the UTF-8
/// encoding of the characters before it.
pub open spec fn prefix_width(s: Seq<char>, k: int) -> nat {
    encode_utf8(s.subrange(0, k)).len()
}

/// The number of bytes in the UTF-8 encoding of `c`.
fn utf8_width(c: char) -> (r: usize)
    ensures
        r == encode_scalar(c as u32).len(),
        1 <= r <= 4,
{
    broadcast use vstd::utf8::char_is_scalar;
    let u = c as u32;
    if u <= 0x7f {
        1
    } else if u <= 0x7ff {
        2
    } else if u <= 0xffff {
        3
    } else {
        4
    }
}

proof fn lemma_encode_concat(a: Seq<char>, b: Seq<char>)
    ensures
        encode_utf8(a + b) == encode_utf8(a) + encode_utf8(b),
    decreases a.len(),
{
    if a.len() == 0 {
        assert(a + b =~= b);
        assert(encode_utf8(a) + encode_utf8(b) =~= encode_utf8(b));
    } else {
        assert((a + b).drop_first() =~= a.drop_first() + b);
        lemma_encode_concat(a.drop_first(), b);
        assert(encode_utf8(a + b) =~= encode_utf8(a) + encode_utf8(b));
    }
}

proof fn lemma_prefix_step(s: Seq<char>, k: int)
    requires
        0 <= k < s.len(),
    ensures
        prefix_width(s, k + 1) == prefix_width(s, k) + encode_scalar(s[k] as u32).len(),
{
    assert(s.subrange(0, k + 1) =~= s.subrange(0, k) + seq![s[k]]);
    lemma_encode_concat(s.subrange(0, k), seq![s[k]]);
    let one = seq![s[k]];
    assert(one.drop_first() =~= Seq::<char>::empty());
    assert(encode_utf8(one.drop_first()) == Seq::<u8>::empty());
    assert(encode_utf8(one) == encode_scalar(one[0] as u32) + encode_utf8(one.drop_first()));
    assert(encode_utf8(one) =~= encode_scalar(s[k] as u32));
}

proof fn lemma_prefix_width(s: Seq<char>, k: int)
    requires
        0 <= k <= s.len(),
    ensures
        prefix_width(s, k) <= encode_utf8(s).len(),
{
    assert(s =~= s.subrange(0, k) + s.subrange(k, s.len() as int));
    lemma_encode_concat(s.subrange(0, k), s.subrange(k, s.len() as int));
}

/// Reports for the irregular white space among the first `k` characters of
/// `s`, each over the bytes of its encoding.
pub open spec fn whitespace_reports(s: Seq<char>, k: int) -> Seq<ReportView>
    decreases k,
{
    if k <= 0 {
        Seq::empty()
    } else {
        let c = s[k - 1];
        whitespace_reports(s, k - 1) + if irregular(c) {
            seq![
                plain(
                    prefix_width(s, k - 1) as u32,
                    (prefix_width(s, k - 1) + encode_scalar(c as u32).len()) as u32,
                    "Irregular whitespace not allowed."@,
                ),
            ]
        } else {
            Seq::empty()
        }
    }
}

proof fn lemma_whitespace_within(s: Seq<char>, k: int)
    requires
        0 <= k <= s.len(),
        encode_utf8(s).len() <= u32::MAX,
    ensures
        all_within(whitespace_reports(s, k), encode_utf8(s).len() as int),
    decreases k,
{
    if k > 0 {
        lemma_whitespace_within(s, k - 1);
        lemma_prefix_step(s, k - 1);
        lemma_prefix_width(s, k);
        let c = s[k - 1];
        lemma_concat_within(
            whitespace_reports(s, k - 1),
            if irregular(c) {
                seq![
                    plain(
                        prefix_width(s, k - 1) as u32,
                        (prefix_width(s, k - 1) + encode_scalar(c as u32).len()) as u32,
                        "Irregular whitespace not allowed."@,
                    ),
                ]
            } else {
                Seq::empty()
            },
            encode_utf8(s).len() as int,
        );
    }
}

} // verus!

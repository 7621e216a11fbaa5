//! Applying the fixes that rules attach to their reports.
//!
//! Fixes are applied in one pass over the source, in the order of the byte at
//! which they start. A fix is applied only where it begins at or after the end
//! of the fix applied before it; one that overlaps an applied fix, or whose
//! range is empty of meaning (ending before it starts, or past the end of the
//! source), is left out. Of fixes that start at the same byte, the one
//! reported first wins.
use vstd::prelude::*;
use vstd::string::{StringExecFns, StringSliceAdditionalSpecFns};
use vstd::utf8::{decode_utf8, encode_utf8, valid_utf8};
use crate::diagnostic::{Diagnostic, DiagnosticView, Fix, FixView};
use crate::linter::{drop_suppressed, lint_tree, tree_diagnostics, unsuppressed, views};
use crate::parse::{parse, parse_of};
use crate::rule::Rule;
use crate::text::decode_bytes;
use crate::tree::SyntaxTree;

verus! {

/// What the fixer gives back.
pub struct FixResult {
    /// Whether at least one fix was applied.
    pub fixed: bool,
    /// The source with the fixes applied.
    pub output: String,
}

pub open spec fn fix_views(fs: Seq<Fix>) -> Seq<FixView> {
    fs.map_values(|f: Fix| f@)
}

/// A fix that lies within the source, at or after `cursor`.
pub open spec fn applicable(f: FixView, cursor: int, len: int) -> bool {
    cursor <= f.range.start && f.range.start <= f.range.end && f.range.end <= len
}

/// The position in `fixes` of the applicable fix that starts first (the
/// earliest reported among those that start at the same byte), or -1 where
/// none is applicable.
pub open spec fn next_fix(fixes: Seq<FixView>, cursor: int, len: int) -> int
    decreases fixes.len(),
{
    if fixes.len() == 0 {
        -1
    } else {
        let p = next_fix(fixes.drop_last(), cursor, len);
        let last = fixes.last();
        if !applicable(last, cursor, len) {
            p
        } else if p < 0 || last.range.start < fixes[p].range.start {
            fixes.len() - 1
        } else {
            p
        }
    }
}

/// The bytes of `src` from `cursor` on, with `fixes` applied.
pub open spec fn patched(src: Seq<u8>, fixes: Seq<FixView>, cursor: int) -> Seq<u8>
    decreases fixes.len(),
{
    let p = next_fix(fixes, cursor, src.len() as int);
    if 0 <= p < fixes.len() {
        let f = fixes[p];
        src.subrange(cursor, f.range.start as int) + encode_utf8(f.text) + patched(
            src,
            fixes.remove(p),
            f.range.end as int,
        )
    } else {
        src.subrange(cursor, src.len() as int)
    }
}

/// Whether `fixes` change `src`: at least one of them applies, and the
/// result is valid UTF-8.
pub open spec fn fixes_apply(src: Seq<u8>, fixes: Seq<FixView>) -> bool {
    next_fix(fixes, 0, src.len() as int) >= 0 && valid_utf8(patched(src, fixes, 0))
}

/// The text that the fixer gives back for `source` and `fixes`.
pub open spec fn fixed_text(source: &str, fixes: Seq<FixView>) -> Seq<char> {
    if fixes_apply(source.spec_bytes(), fixes) {
        decode_utf8(patched(source.spec_bytes(), fixes, 0))
    } else {
        source@
    }
}

/// The fixes carried by `ds`, in order.
pub open spec fn fixes_of(ds: Seq<DiagnosticView>) -> Seq<FixView>
    decreases ds.len(),
{
    if ds.len() == 0 {
        Seq::empty()
    } else {
        let rest = fixes_of(ds.drop_last());
        match ds.last().fix {
            Some(f) => rest.push(f),
            None => rest,
        }
    }
}

pub open spec fn index_or_none(o: Option<usize>) -> int {
    match o {
        Some(i) => i as int,
        None => -1,
    }
}

proof fn lemma_next_fix(fixes: Seq<FixView>, cursor: int, len: int)
    ensures
        -1 <= next_fix(fixes, cursor, len) < fixes.len(),
        next_fix(fixes, cursor, len) >= 0 ==> applicable(
            fixes[next_fix(fixes, cursor, len)],
            cursor,
            len,
        ),
    decreases fixes.len(),
{
    if fixes.len() > 0 {
        lemma_next_fix(fixes.drop_last(), cursor, len);
    }
}

/// With no fixes, the fixer changes nothing: the source comes back as it was.
pub proof fn lemma_no_fixes(source: &str)
    ensures
        !fixes_apply(source.spec_bytes(), Seq::empty()),
        fixed_text(source, Seq::empty()) == source@,
{
}

/// One fix that lies within the source replaces exactly its range by its
/// text: the bytes before and after the range stay as they were.
pub proof fn lemma_one_fix(src: Seq<u8>, f: FixView)
    requires
        applicable(f, 0, src.len() as int),
    ensures
        next_fix(seq![f], 0, src.len() as int) == 0,
        patched(src, seq![f], 0) == src.subrange(0, f.range.start as int) + encode_utf8(f.text)
            + src.subrange(f.range.end as int, src.len() as int),
{
    let fs = seq![f];
    let len = src.len() as int;
    assert(fs.drop_last() =~= Seq::<FixView>::empty());
    assert(next_fix(fs.drop_last(), 0, len) == -1);
    assert(fs.last() == f);
    assert(next_fix(fs, 0, len) == 0);
    assert(fs.remove(0) =~= Seq::<FixView>::empty());
    assert(next_fix(fs.remove(0), f.range.end as int, len) == -1);
    assert(patched(src, fs.remove(0), f.range.end as int) == src.subrange(f.range.end as int, len));
}

/// Fixes of which none lies within the source leave it unchanged.
pub proof fn lemma_inapplicable_fixes(src: Seq<u8>, fixes: Seq<FixView>)
    requires
        forall|i: int| 0 <= i < fixes.len() ==> !applicable(#[trigger] fixes[i], 0, src.len() as int),
    ensures
        next_fix(fixes, 0, src.len() as int) == -1,
        patched(src, fixes, 0) == src,
    decreases fixes.len(),
{
    if fixes.len() > 0 {
        let rest = fixes.drop_last();
        assert forall|i: int| 0 <= i < rest.len() implies !applicable(#[trigger] rest[i], 0, src.len() as int) by {
            assert(rest[i] == fixes[i]);
        }
        lemma_inapplicable_fixes(src, rest);
        assert(!applicable(fixes[fixes.len() - 1], 0, src.len() as int));
    }
    assert(src.subrange(0, src.len() as int) =~= src);
}

/// The fix applied first is one that starts no later than any fix within
/// the source; among those starting at the same byte, the one reported first.
pub proof fn lemma_first_fix_is_leftmost(fixes: Seq<FixView>, cursor: int, len: int)
    ensures
        ({
            let p = next_fix(fixes, cursor, len);
            p >= 0 ==> forall|j: int|
                0 <= j < fixes.len() && applicable(#[trigger] fixes[j], cursor, len) ==> {
                    ||| fixes[p].range.start < fixes[j].range.start
                    ||| (fixes[p].range.start == fixes[j].range.start && p <= j)
                }
        }),
        next_fix(fixes, cursor, len) < 0 ==> forall|j: int|
            0 <= j < fixes.len() ==> !applicable(#[trigger] fixes[j], cursor, len),
    decreases fixes.len(),
{
    if fixes.len() > 0 {
        let rest = fixes.drop_last();
        let n = fixes.len() - 1;
        lemma_first_fix_is_leftmost(rest, cursor, len);
        lemma_next_fix(rest, cursor, len);
        let q = next_fix(rest, cursor, len);
        let p = next_fix(fixes, cursor, len);
        if q >= 0 {
            assert(rest[q] == fixes[q]);
        }
        assert forall|j: int|
            0 <= j < fixes.len() && applicable(#[trigger] fixes[j], cursor, len) implies p >= 0 && {
            ||| fixes[p].range.start < fixes[j].range.start
            ||| (fixes[p].range.start == fixes[j].range.start && p <= j)
        } by {
            if j < n {
                assert(rest[j] == fixes[j]);
            }
        }
    }
}

/// Finds the fix that applies next.
fn pick_next(fixes: &Vec<Fix>, cursor: usize, len: usize) -> (r: Option<usize>)
    ensures
        index_or_none(r) == next_fix(fix_views(fixes@), cursor as int, len as int),
{
    let ghost all = fix_views(fixes@);
    let mut best: Option<usize> = None;
    let mut k: usize = 0;
    while k < fixes.len()
        invariant
            all == fix_views(fixes@),
            0 <= k <= fixes@.len(),
            index_or_none(best) == next_fix(all.subrange(0, k as int), cursor as int, len as int),
            best matches Some(b) ==> b < k,
        decreases fixes.len() - k,
    {
        proof {
            assert(all.subrange(0, k + 1).drop_last() =~= all.subrange(0, k as int));
            assert(all[k as int] == fixes@[k as int]@);
        }
        let start = fixes[k].range.start as usize;
        let end = fixes[k].range.end as usize;
        if cursor <= start && start <= end && end <= len {
            match best {
                None => {
                    best = Some(k);
                },
                Some(b) => {
                    proof {
                        assert(all[b as int] == fixes@[b as int]@);
                    }
                    if start < fixes[b].range.start as usize {
                        best = Some(k);
                    }
                },
            }
        }
        k = k + 1;
    }
    proof {
        assert(all.subrange(0, fixes@.len() as int) =~= all);
    }
    best
}

/// Appends `s` to `out`.
fn push_all(out: &mut Vec<u8>, s: &[u8])
    ensures
        final(out)@ == old(out)@ + s@,
{
    let mut i: usize = 0;
    while i < s.len()
        invariant
            0 <= i <= s@.len(),
            out@ == old(out)@ + s@.subrange(0, i as int),
        decreases s.len() - i,
    {
        out.push(s[i]);
        i = i + 1;
        proof {
            assert(out@ =~= old(out)@ + s@.subrange(0, i as int));
        }
    }
    assert(s@.subrange(0, s@.len() as int) =~= s@);
}

/// Appends the bytes `s[from..to]` to `out`.
fn push_range(out: &mut Vec<u8>, s: &[u8], from: usize, to: usize)
    requires
        from <= to <= s@.len(),
    ensures
        final(out)@ == old(out)@ + s@.subrange(from as int, to as int),
{
    let mut i: usize = from;
    while i < to
        invariant
            from <= i <= to <= s@.len(),
            out@ == old(out)@ + s@.subrange(from as int, i as int),
        decreases to - i,
    {
        out.push(s[i]);
        i = i + 1;
        proof {
            assert(out@ =~= old(out)@ + s@.subrange(from as int, i as int));
        }
    }
}

/// Applies `fixes` to `source` in one pass: see the module's documentation
/// for which of them apply.
pub fn apply_fixes(source: &str, fixes: Vec<Fix>) -> (r: FixResult)
    ensures
        r.fixed == fixes_apply(source.spec_bytes(), fix_views(fixes@)),
        r.output@ == fixed_text(source, fix_views(fixes@)),
{
    let src = source.as_bytes();
    let n = src.len();
    let ghost all = fix_views(fixes@);
    let mut remaining = fixes;
    let mut out: Vec<u8> = Vec::new();
    let mut cursor: usize = 0;
    let mut any = false;
    loop
        invariant
            src@ == source.spec_bytes(),
            n == src@.len(),
            cursor <= n,
            out@ + patched(src@, fix_views(remaining@), cursor as int) == patched(src@, all, 0),
            any ==> next_fix(all, 0, n as int) >= 0,
            !any ==> cursor == 0 && fix_views(remaining@) == all && out@.len() == 0,
        ensures
            next_fix(fix_views(remaining@), cursor as int, n as int) == -1,
        decreases remaining@.len(),
    {
        let ghost before = fix_views(remaining@);
        let picked = pick_next(&remaining, cursor, n);
        proof {
            lemma_next_fix(before, cursor as int, n as int);
        }
        match picked {
            None => {
                break ;
            },
            Some(i) => {
                let ghost f = before[i as int];
                let fix = remaining.remove(i);
                proof {
                    assert(fix@ == f);
                    assert(fix_views(remaining@) =~= before.remove(i as int));
                }
                let start = fix.range.start as usize;
                let end = fix.range.end as usize;
                let ghost out0 = out@;
                push_range(&mut out, src, cursor, start);
                push_all(&mut out, fix.text.as_str().as_bytes());
                proof {
                    let rest = patched(src@, before.remove(i as int), end as int);
                    assert(patched(src@, before, cursor as int) == src@.subrange(
                        cursor as int,
                        start as int,
                    ) + encode_utf8(f.text) + rest);
                    assert(out@ =~= out0 + src@.subrange(cursor as int, start as int)
                        + encode_utf8(f.text));
                    assert(out@ + rest =~= out0 + patched(src@, before, cursor as int));
                }
                cursor = end;
                any = true;
            },
        }
    }
    proof {
        let rest = fix_views(remaining@);
        assert(patched(src@, rest, cursor as int) == src@.subrange(cursor as int, n as int));
    }
    push_range(&mut out, src, cursor, n);
    if !any {
        return FixResult { fixed: false, output: String::from_str(source) };
    }
    match decode_bytes(out.as_slice()) {
        Some(s) => {
            proof {
                vstd::utf8::encode_utf8_decode_utf8(s@);
            }
            FixResult { fixed: true, output: s }
        },
        None => FixResult { fixed: false, output: String::from_str(source) },
    }
}

/// The fixes carried by `ds`, in order.
pub fn collect_fixes(ds: &Vec<Diagnostic>) -> (r: Vec<Fix>)
    ensures
        fix_views(r@) == fixes_of(views(ds@)),
{
    let mut out: Vec<Fix> = Vec::new();
    let mut i: usize = 0;
    while i < ds.len()
        invariant
            0 <= i <= ds@.len(),
            fix_views(out@) == fixes_of(views(ds@).subrange(0, i as int)),
        decreases ds.len() - i,
    {
        proof {
            assert(views(ds@).subrange(0, i + 1).drop_last() =~= views(ds@).subrange(0, i as int));
            assert(views(ds@)[i as int] == ds@[i as int]@);
        }
        match &ds[i].fix {
            Some(f) => {
                let ghost prev = fix_views(out@);
                out.push(Fix { range: f.range, text: f.text.clone() });
                proof {
                    assert(fix_views(out@) =~= prev.push(f@));
                }
            },
            None => {},
        }
        i = i + 1;
    }
    proof {
        assert(views(ds@).subrange(0, ds@.len() as int) =~= views(ds@));
    }
    out
}

/// Lints `source` with `rule` and applies the fixes of the diagnostics that
/// no directive switches off.
pub fn lint_and_fix<R: Rule>(rule: R, source: &str) -> (r: FixResult)
    ensures
        exists|t: SyntaxTree|
            {
                &&& parse_of(&t, source@)
                &&& r.fixed == fixes_apply(
                    source.spec_bytes(),
                    fixes_of(unsuppressed(source.spec_bytes(), tree_diagnostics(&rule, &t))),
                )
                &&& r.output@ == fixed_text(
                    source,
                    fixes_of(unsuppressed(source.spec_bytes(), tree_diagnostics(&rule, &t))),
                )
            },
{
    let tree = parse(source);
    let ds = drop_suppressed(source, lint_tree(&rule, &tree));
    let fixes = collect_fixes(&ds);
    apply_fixes(source, fixes)
}

} // verus!

//! Comments that switch rules off: `eslint-disable-line`,
//! `eslint-disable-next-line`, and the `eslint-disable` / `eslint-enable`
//! pairs.
//!
//! Directives are found by scanning the source text line by line, and they
//! act on whole lines:
//!
//! - `// eslint-disable-line` or `/* eslint-disable-line */` switches rules
//!   off on the line where it stands;
//! - `// eslint-disable-next-line` or `/* eslint-disable-next-line */` on the
//!   line after it;
//! - `/* eslint-disable */` switches rules off from its own line on, and
//!   `/* eslint-enable */` switches them on again; on a line that holds both,
//!   the one written last wins.
//!
//! The keyword follows the comment opener after exactly one space, and ends
//! the word: a space, a tab, a line break, `*` or the end of the text follows
//! it. The rest of the line (up to `*/` in a block comment, and up to `--`,
//! which starts a description) lists the rules, separated by commas; a
//! directive that lists none applies to every rule.
use vstd::prelude::*;
use vstd::string::StringSliceAdditionalSpecFns;
use crate::text::{
    bytes_eq, contains_seq, count_byte, count_byte_exec, find_from, first_occurrence_from, occurs_at,
    occurs_at_exec, range_of, slice_range,
};

verus! {

pub const NEWLINE: u8 = 10;

pub const COMMA: u8 = 44;

/// What a directive does.
#[derive(Clone, Copy, Debug, PartialEq, Eq, Structural)]
pub enum DirectiveKind {
    DisableLine,
    DisableNextLine,
    Disable,
    Enable,
}

/// The bytes that surround a rule name: ASCII white space but for the line
/// break, which ends the directive.
pub open spec fn blank(b: u8) -> bool {
    b == 32 || b == 9 || b == 13 || b == 12
}

pub open spec fn trim_start_bytes(s: Seq<u8>) -> Seq<u8>
    decreases s.len(),
{
    if s.len() > 0 && blank(s[0]) {
        trim_start_bytes(s.drop_first())
    } else {
        s
    }
}

pub open spec fn trim_end_bytes(s: Seq<u8>) -> Seq<u8>
    decreases s.len(),
{
    if s.len() > 0 && blank(s.last()) {
        trim_end_bytes(s.drop_last())
    } else {
        s
    }
}

/// `s` without the blanks at either end.
pub open spec fn trim_bytes(s: Seq<u8>) -> Seq<u8> {
    trim_end_bytes(trim_start_bytes(s))
}

/// The name `cur` as one entry of a list: none where it is empty.
pub open spec fn entry(cur: Seq<u8>) -> Seq<Seq<u8>> {
    let name = trim_bytes(cur);
    if name.len() == 0 {
        Seq::empty()
    } else {
        seq![name]
    }
}

/// The names in the comma-separated list `t` from byte `i` on, where `cur`
/// holds the bytes of the name being read.
pub open spec fn names_scan(t: Seq<u8>, i: int, cur: Seq<u8>) -> Seq<Seq<u8>>
    decreases t.len() - i,
{
    if i >= t.len() {
        entry(cur)
    } else if t[i] == COMMA {
        entry(cur) + names_scan(t, i + 1, Seq::empty())
    } else {
        names_scan(t, i + 1, cur.push(t[i]))
    }
}

/// The rule names that a comma-separated list holds, each without the blanks
/// around it; empty names are left out.
pub open spec fn names_in(t: Seq<u8>) -> Seq<Seq<u8>> {
    names_scan(t, 0, Seq::empty())
}

/// `t` up to the first occurrence of `pat`, or the whole of `t`.
pub open spec fn cut_at(t: Seq<u8>, pat: Seq<u8>) -> Seq<u8> {
    match first_occurrence_from(t, pat, 0) {
        Some(i) => t.subrange(0, i),
        None => t,
    }
}

/// A directive that lists no rule applies to every rule.
pub open spec fn covers(names: Seq<Seq<u8>>, rule: Seq<u8>) -> bool {
    names.len() == 0 || names.contains(rule)
}

/// Trims the blanks at either end of `s`.
fn trim_slice(s: &[u8]) -> (r: &[u8])
    ensures
        r@ == trim_bytes(s@),
{
    let len = s.len();
    assert(s@.subrange(0, len as int) =~= s@);
    let mut i: usize = 0;
    while i < len && (s[i] == 32 || s[i] == 9 || s[i] == 13 || s[i] == 12)
        invariant
            len == s@.len(),
            0 <= i <= len,
            trim_start_bytes(s@) == trim_start_bytes(s@.subrange(i as int, len as int)),
        decreases len - i,
    {
        assert(s@.subrange(i as int, len as int).drop_first() =~= s@.subrange(i + 1, len as int));
        i = i + 1;
    }
    assert(trim_start_bytes(s@.subrange(i as int, len as int)) == s@.subrange(i as int, len as int));
    let mut j: usize = len;
    while j > i && (s[j - 1] == 32 || s[j - 1] == 9 || s[j - 1] == 13 || s[j - 1] == 12)
        invariant
            len == s@.len(),
            0 <= i <= j <= len,
            trim_bytes(s@) == trim_end_bytes(s@.subrange(i as int, j as int)),
        decreases j,
    {
        assert(s@.subrange(i as int, j as int).drop_last() =~= s@.subrange(i as int, j - 1));
        j = j - 1;
    }
    assert(trim_end_bytes(s@.subrange(i as int, j as int)) == s@.subrange(i as int, j as int));
    slice_range(s, i, j)
}

/// Appends the name in `cur`, trimmed, unless it is empty.
fn push_entry(out: &mut Vec<Vec<u8>>, cur: &[u8])
    ensures
        deep(final(out)@) == deep(old(out)@) + entry(cur@),
{
    let name = trim_slice(cur);
    if name.len() > 0 {
        let mut v: Vec<u8> = Vec::new();
        let mut k: usize = 0;
        while k < name.len()
            invariant
                0 <= k <= name@.len(),
                v@ == name@.subrange(0, k as int),
            decreases name.len() - k,
        {
            v.push(name[k]);
            k = k + 1;
            assert(v@ =~= name@.subrange(0, k as int));
        }
        assert(v@ =~= name@);
        let ghost before = deep(out@);
        out.push(v);
        assert(deep(out@) =~= before + seq![name@]);
    } else {
        assert(deep(old(out)@) + entry(cur@) =~= deep(old(out)@));
    }
}

/// The contents of a list of byte vectors.
pub open spec fn deep(v: Seq<Vec<u8>>) -> Seq<Seq<u8>> {
    v.map_values(|x: Vec<u8>| x@)
}

/// The rule names in the comma-separated list `t`.
pub fn names_of(t: &[u8]) -> (r: Vec<Vec<u8>>)
    ensures
        deep(r@) == names_in(t@),
{
    let mut out: Vec<Vec<u8>> = Vec::new();
    let mut start: usize = 0;
    let mut i: usize = 0;
    assert(t@.subrange(0, 0) =~= Seq::<u8>::empty());
    assert(deep(out@) + names_in(t@) =~= names_in(t@));
    while i < t.len()
        invariant
            0 <= start <= i <= t@.len(),
            deep(out@) + names_scan(t@, i as int, t@.subrange(start as int, i as int)) == names_in(
                t@,
            ),
        decreases t.len() - i,
    {
        let ghost cur = t@.subrange(start as int, i as int);
        if t[i] == COMMA {
            let ghost before = deep(out@);
            push_entry(&mut out, slice_range(t, start, i));
            proof {
                assert(t@.subrange(i + 1, i + 1) =~= Seq::<u8>::empty());
                assert(names_scan(t@, i as int, cur) == entry(cur) + names_scan(
                    t@,
                    i + 1,
                    Seq::empty(),
                ));
                assert(deep(out@) + names_scan(t@, i + 1, Seq::empty()) =~= before + names_scan(
                    t@,
                    i as int,
                    cur,
                ));
            }
            start = i + 1;
        } else {
            proof {
                assert(t@.subrange(start as int, i + 1) =~= cur.push(t@[i as int]));
            }
        }
        i = i + 1;
    }
    let ghost before = deep(out@);
    push_entry(&mut out, slice_range(t, start, t.len()));
    proof {
        assert(deep(out@) =~= before + names_scan(
            t@,
            t@.len() as int,
            t@.subrange(start as int, t@.len() as int),
        ));
    }
    out
}

/// Whether `names` lists no rule, or lists `rule`.
pub fn covers_rule(names: &Vec<Vec<u8>>, rule: &[u8]) -> (r: bool)
    ensures
        r == covers(deep(names@), rule@),
{
    if names.len() == 0 {
        return true;
    }
    let mut k: usize = 0;
    while k < names.len()
        invariant
            0 <= k <= names@.len(),
            forall|j: int| 0 <= j < k ==> deep(names@)[j] != rule@,
        decreases names.len() - k,
    {
        if bytes_eq(names[k].as_slice(), rule) {
            assert(deep(names@)[k as int] == rule@);
            return true;
        }
        k = k + 1;
    }
    proof {
        if deep(names@).contains(rule@) {
            let j = choose|j: int| 0 <= j < deep(names@).len() && deep(names@)[j] == rule@;
            assert(deep(names@)[j] != rule@);
        }
    }
    false
}

pub const STAR: u8 = 42;

/// The byte at `q` ends a keyword: a blank, a line break, `*`, or the end of
/// the text.
pub open spec fn ends_word(s: Seq<u8>, q: int) -> bool {
    q >= s.len() || blank(s[q]) || s[q] == NEWLINE || s[q] == STAR
}

/// Where keyword `kw` that stands at `p` ends, if it does stand there.
pub open spec fn keyword_end(s: Seq<u8>, p: int, kw: Seq<u8>) -> Option<int> {
    if occurs_at(s, kw, p) && ends_word(s, p + kw.len()) {
        Some(p + kw.len())
    } else {
        None
    }
}

/// The directive whose keyword stands at byte `p`: what it does, whether it
/// is written in a block comment, and where its keyword ends.
pub open spec fn directive_at(s: Seq<u8>, p: int) -> Option<(DirectiveKind, bool, int)> {
    if let Some(q) = keyword_end(s, p, "// eslint-disable-line".spec_bytes()) {
        Some((DirectiveKind::DisableLine, false, q))
    } else if let Some(q) = keyword_end(s, p, "/* eslint-disable-line".spec_bytes()) {
        Some((DirectiveKind::DisableLine, true, q))
    } else if let Some(q) = keyword_end(s, p, "// eslint-disable-next-line".spec_bytes()) {
        Some((DirectiveKind::DisableNextLine, false, q))
    } else if let Some(q) = keyword_end(s, p, "/* eslint-disable-next-line".spec_bytes()) {
        Some((DirectiveKind::DisableNextLine, true, q))
    } else if let Some(q) = keyword_end(s, p, "/* eslint-disable".spec_bytes()) {
        Some((DirectiveKind::Disable, true, q))
    } else if let Some(q) = keyword_end(s, p, "/* eslint-enable".spec_bytes()) {
        Some((DirectiveKind::Enable, true, q))
    } else {
        None
    }
}

/// Where the line that holds byte `q` ends.
pub open spec fn line_end(s: Seq<u8>, q: int) -> int {
    match first_occurrence_from(s, "\n".spec_bytes(), q) {
        Some(i) => i,
        None => s.len() as int,
    }
}

/// The list of rules of a directive whose keyword ends at `q`: the rest of
/// the line, up to the end of a block comment and up to a description.
pub open spec fn directive_text(s: Seq<u8>, q: int, block: bool) -> Seq<u8> {
    let rest = range_of(s, q, line_end(s, q));
    let body = if block {
        cut_at(rest, "*/".spec_bytes())
    } else {
        rest
    };
    cut_at(body, "--".spec_bytes())
}

/// The rules that a directive whose keyword ends at `q` names.
pub open spec fn directive_names(s: Seq<u8>, q: int, block: bool) -> Seq<Seq<u8>> {
    names_in(directive_text(s, q, block))
}

/// The line (counted from 0) that holds byte `i`; a position past the end
/// counts as the end.
pub open spec fn line_at(s: Seq<u8>, i: int) -> int {
    count_byte(
        s.subrange(
            0,
            if i <= s.len() {
                i
            } else {
                s.len() as int
            },
        ),
        NEWLINE,
    ) as int
}

/// Whether `rule` is switched off after the directive at `p`, where it was
/// switched off before exactly when `prev` holds.
pub open spec fn block_step(s: Seq<u8>, p: int, rule: Seq<u8>, prev: bool) -> bool {
    match directive_at(s, p) {
        Some((DirectiveKind::Disable, b, q)) => prev || covers(directive_names(s, q, b), rule),
        Some((DirectiveKind::Enable, b, q)) => prev && !covers(directive_names(s, q, b), rule),
        _ => prev,
    }
}

/// Whether the `eslint-disable` and `eslint-enable` comments among the first
/// `k` bytes that stand on line `line` or before leave `rule` switched off.
pub open spec fn disabled_upto(s: Seq<u8>, rule: Seq<u8>, line: int, k: int) -> bool
    decreases k,
{
    if k <= 0 {
        false
    } else {
        let prev = disabled_upto(s, rule, line, k - 1);
        if line_at(s, k - 1) <= line {
            block_step(s, k - 1, rule, prev)
        } else {
            prev
        }
    }
}

/// Whether the directive at `p` switches `rule` off on line `line` alone.
pub open spec fn hits(s: Seq<u8>, p: int, rule: Seq<u8>, line: int) -> bool {
    match directive_at(s, p) {
        Some((DirectiveKind::DisableLine, b, q)) => line_at(s, p) == line && covers(
            directive_names(s, q, b),
            rule,
        ),
        Some((DirectiveKind::DisableNextLine, b, q)) => line_at(s, p) + 1 == line && covers(
            directive_names(s, q, b),
            rule,
        ),
        _ => false,
    }
}

/// Whether one of the first `k` bytes starts a directive that switches
/// `rule` off on line `line` alone.
pub open spec fn hit_upto(s: Seq<u8>, rule: Seq<u8>, line: int, k: int) -> bool
    decreases k,
{
    if k <= 0 {
        false
    } else {
        hit_upto(s, rule, line, k - 1) || hits(s, k - 1, rule, line)
    }
}

/// Whether the directives of source `s` switch `rule` off on line `line`.
pub open spec fn suppressed(s: Seq<u8>, rule: Seq<u8>, line: int) -> bool {
    disabled_upto(s, rule, line, s.len() as int) || hit_upto(s, rule, line, s.len() as int)
}

proof fn lemma_occurs_inside(s: Seq<u8>, kw: Seq<u8>, p: int, sub: Seq<u8>, off: int)
    requires
        occurs_at(s, kw, p),
        0 <= off,
        off + sub.len() <= kw.len(),
        kw.subrange(off, off + sub.len()) == sub,
    ensures
        occurs_at(s, sub, p + off),
{
    assert(s.subrange(p + off, p + off + sub.len()) =~= kw.subrange(off, off + sub.len()));
}

/// Every directive keyword holds the text `eslint-`, three bytes in.
proof fn lemma_keyword_mentions_eslint(s: Seq<u8>, p: int)
    requires
        directive_at(s, p) is Some,
    ensures
        occurs_at(s, "eslint-".spec_bytes(), p + 3),
{
    broadcast use vstd::string::is_ascii_spec_bytes;
    reveal_strlit("eslint-");
    assert(vstd::string::is_ascii("eslint-"));
    reveal_strlit("// eslint-disable-line");
    assert(vstd::string::is_ascii("// eslint-disable-line"));
    reveal_strlit("/* eslint-disable-line");
    assert(vstd::string::is_ascii("/* eslint-disable-line"));
    reveal_strlit("// eslint-disable-next-line");
    assert(vstd::string::is_ascii("// eslint-disable-next-line"));
    reveal_strlit("/* eslint-disable-next-line");
    assert(vstd::string::is_ascii("/* eslint-disable-next-line"));
    reveal_strlit("/* eslint-disable");
    assert(vstd::string::is_ascii("/* eslint-disable"));
    reveal_strlit("/* eslint-enable");
    assert(vstd::string::is_ascii("/* eslint-enable"));
    let e = "eslint-".spec_bytes();
    assert(e.len() == 7);
    if keyword_end(s, p, "// eslint-disable-line".spec_bytes()) is Some {
        let kw = "// eslint-disable-line".spec_bytes();
        assert(kw.subrange(3, 10) =~= e);
        lemma_occurs_inside(s, kw, p, e, 3);
    } else if keyword_end(s, p, "/* eslint-disable-line".spec_bytes()) is Some {
        let kw = "/* eslint-disable-line".spec_bytes();
        assert(kw.subrange(3, 10) =~= e);
        lemma_occurs_inside(s, kw, p, e, 3);
    } else if keyword_end(s, p, "// eslint-disable-next-line".spec_bytes()) is Some {
        let kw = "// eslint-disable-next-line".spec_bytes();
        assert(kw.subrange(3, 10) =~= e);
        lemma_occurs_inside(s, kw, p, e, 3);
    } else if keyword_end(s, p, "/* eslint-disable-next-line".spec_bytes()) is Some {
        let kw = "/* eslint-disable-next-line".spec_bytes();
        assert(kw.subrange(3, 10) =~= e);
        lemma_occurs_inside(s, kw, p, e, 3);
    } else if keyword_end(s, p, "/* eslint-disable".spec_bytes()) is Some {
        let kw = "/* eslint-disable".spec_bytes();
        assert(kw.subrange(3, 10) =~= e);
        lemma_occurs_inside(s, kw, p, e, 3);
    } else {
        let kw = "/* eslint-enable".spec_bytes();
        assert(kw.subrange(3, 10) =~= e);
        lemma_occurs_inside(s, kw, p, e, 3);
    }
}

proof fn lemma_no_directive_upto(s: Seq<u8>, rule: Seq<u8>, line: int, k: int)
    requires
        forall|p: int| 0 <= p < k ==> #[trigger] directive_at(s, p) is None,
    ensures
        !disabled_upto(s, rule, line, k),
        !hit_upto(s, rule, line, k),
    decreases k,
{
    if k > 0 {
        lemma_no_directive_upto(s, rule, line, k - 1);
        assert(directive_at(s, k - 1) is None);
    }
}

/// Where the source does not hold the text `eslint-`, no rule is switched
/// off on any line.
pub proof fn lemma_no_directives(s: Seq<u8>, rule: Seq<u8>, line: int)
    requires
        !contains_seq(s, "eslint-".spec_bytes()),
    ensures
        !suppressed(s, rule, line),
{
    assert forall|p: int| 0 <= p < s.len() implies #[trigger] directive_at(s, p) is None by {
        if directive_at(s, p) is Some {
            lemma_keyword_mentions_eslint(s, p);
        }
    }
    lemma_no_directive_upto(s, rule, line, s.len() as int);
}

/// A rule is switched off by `eslint-disable` on a line only where an
/// `eslint-disable` comment that names it, or names no rule, stands on that
/// line or an earlier one.
pub proof fn lemma_disable_comes_first(s: Seq<u8>, rule: Seq<u8>, line: int, k: int)
    requires
        disabled_upto(s, rule, line, k),
    ensures
        exists|p: int|
            #![trigger directive_at(s, p)]
            0 <= p < k && line_at(s, p) <= line && match directive_at(s, p) {
                Some((DirectiveKind::Disable, b, q)) => covers(directive_names(s, q, b), rule),
                _ => false,
            },
    decreases k,
{
    if k > 0 {
        let prev = disabled_upto(s, rule, line, k - 1);
        if prev {
            lemma_disable_comes_first(s, rule, line, k - 1);
        } else {
            let p = k - 1;
            assert(line_at(s, p) <= line);
            assert(directive_at(s, p) is Some);
        }
    }
}

/// A line directive acts on one line: `eslint-disable-line` on its own, and
/// `eslint-disable-next-line` on the next.
pub proof fn lemma_line_directives_scope(s: Seq<u8>, p: int, rule: Seq<u8>, line: int)
    requires
        hits(s, p, rule, line),
    ensures
        directive_at(s, p) matches Some((DirectiveKind::DisableLine, _, _)) ==> line == line_at(
            s,
            p,
        ),
        directive_at(s, p) matches Some((DirectiveKind::DisableNextLine, _, _)) ==> line
            == line_at(s, p) + 1,
{
}

/// Where keyword `kw` that stands at `p` ends, if it does stand there.
fn keyword_end_exec(s: &[u8], p: usize, kw: &[u8]) -> (r: Option<usize>)
    ensures
        match r {
            Some(q) => keyword_end(s@, p as int, kw@) == Some(q as int),
            None => keyword_end(s@, p as int, kw@) is None,
        },
{
    let found = occurs_at_exec(s, kw, p);
    if !found {
        return None;
    }
    let n = s.len();
    let m = kw.len();
    assert(p + m <= n);
    let q = p + m;
    if q >= s.len() || s[q] == 32 || s[q] == 9 || s[q] == 13 || s[q] == 12 || s[q] == NEWLINE
        || s[q] == STAR {
        Some(q)
    } else {
        None
    }
}

/// The directive whose keyword stands at byte `p`.
pub fn directive_at_exec(s: &[u8], p: usize) -> (r: Option<(DirectiveKind, bool, usize)>)
    ensures
        match r {
            Some((k, b, q)) => directive_at(s@, p as int) == Some((k, b, q as int)),
            None => directive_at(s@, p as int) is None,
        },
{
    if let Some(q) = keyword_end_exec(s, p, "// eslint-disable-line".as_bytes()) {
        Some((DirectiveKind::DisableLine, false, q))
    } else if let Some(q) = keyword_end_exec(s, p, "/* eslint-disable-line".as_bytes()) {
        Some((DirectiveKind::DisableLine, true, q))
    } else if let Some(q) = keyword_end_exec(s, p, "// eslint-disable-next-line".as_bytes()) {
        Some((DirectiveKind::DisableNextLine, false, q))
    } else if let Some(q) = keyword_end_exec(s, p, "/* eslint-disable-next-line".as_bytes()) {
        Some((DirectiveKind::DisableNextLine, true, q))
    } else if let Some(q) = keyword_end_exec(s, p, "/* eslint-disable".as_bytes()) {
        Some((DirectiveKind::Disable, true, q))
    } else if let Some(q) = keyword_end_exec(s, p, "/* eslint-enable".as_bytes()) {
        Some((DirectiveKind::Enable, true, q))
    } else {
        None
    }
}

/// `t` up to the first occurrence of `pat`.
fn cut_slice<'a>(t: &'a [u8], pat: &[u8]) -> (r: &'a [u8])
    ensures
        r@ == cut_at(t@, pat@),
{
    match find_from(t, pat, 0) {
        Some(i) => slice_range(t, 0, i),
        None => t,
    }
}

/// The rule names of the directive whose keyword ends at `q`.
pub fn directive_names_exec(s: &[u8], q: usize, block: bool) -> (r: Vec<Vec<u8>>)
    requires
        q <= s@.len(),
    ensures
        deep(r@) == directive_names(s@, q as int, block),
{
    let end = match find_from(s, "\n".as_bytes(), q) {
        Some(i) => i,
        None => s.len(),
    };
    let rest = slice_range(s, q, end);
    let body = if block {
        cut_slice(rest, "*/".as_bytes())
    } else {
        rest
    };
    names_of(cut_slice(body, "--".as_bytes()))
}

/// Whether the directives in `s` switch `rule` off on line `line`.
pub fn is_suppressed(s: &[u8], rule: &[u8], line: usize) -> (r: bool)
    ensures
        r == suppressed(s@, rule@, line as int),
{
    let mut disabled = false;
    let mut hit = false;
    let mut cur_line: usize = 0;
    let mut p: usize = 0;
    while p < s.len()
        invariant
            0 <= p <= s@.len(),
            cur_line <= p,
            cur_line == line_at(s@, p as int),
            disabled == disabled_upto(s@, rule@, line as int, p as int),
            hit == hit_upto(s@, rule@, line as int, p as int),
        decreases s.len() - p,
    {
        if let Some((kind, block, q)) = directive_at_exec(s, p) {
            proof {
                assert(q <= s@.len());
            }
            let names = directive_names_exec(s, q, block);
            let c = covers_rule(&names, rule);
            match kind {
                DirectiveKind::Disable => {
                    if cur_line <= line && c {
                        disabled = true;
                    }
                },
                DirectiveKind::Enable => {
                    if cur_line <= line && c {
                        disabled = false;
                    }
                },
                DirectiveKind::DisableLine => {
                    if cur_line == line && c {
                        hit = true;
                    }
                },
                DirectiveKind::DisableNextLine => {
                    if cur_line + 1 == line && c {
                        hit = true;
                    }
                },
            }
        }
        proof {
            assert(s@.subrange(0, p + 1).drop_last() =~= s@.subrange(0, p as int));
        }
        if s[p] == NEWLINE {
            cur_line = cur_line + 1;
        }
        p = p + 1;
    }
    disabled || hit
}

/// The line (counted from 0) that holds byte `i` of `s`.
pub fn line_at_exec(s: &[u8], i: usize) -> (r: usize)
    ensures
        r == line_at(s@, i as int),
{
    let end = if i <= s.len() {
        i
    } else {
        s.len()
    };
    count_byte_exec(slice_range(s, 0, end), NEWLINE)
}

} // verus!

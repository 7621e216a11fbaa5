//! Running a rule over every node of a tree.
use vstd::prelude::*;
use vstd::string::StringExecFns;
use vstd::string::{StringSliceAdditionalSpecFns, StrSliceExecFns};
use vstd::utf8::encode_utf8;
use crate::diagnostic::{
    all_within, diagnostic_of, fix_view, lemma_concat_within, report_within, span_within, Diagnostic,
    DiagnosticView, Fix, ReportView, RuleContext,
};
use crate::directives::{is_suppressed, lemma_no_directives, line_at, line_at_exec, suppressed};
use crate::text::contains_seq;
use crate::parse::{parse, parse_of};
use crate::rule::Rule;
use crate::tree::SyntaxTree;

verus! {

/// The reports that `rule` makes on nodes `0..k` of `tree`, node by node.
pub open spec fn reports_upto<R: Rule>(rule: &R, tree: &SyntaxTree, k: int) -> Seq<ReportView>
    decreases k,
{
    if k <= 0 {
        Seq::empty()
    } else {
        reports_upto(rule, tree, k - 1) + rule.spec_reports(tree, k - 1)
    }
}

/// The reports that `rule` makes on the whole of `tree`, in node order.
pub open spec fn tree_reports<R: Rule>(rule: &R, tree: &SyntaxTree) -> Seq<ReportView> {
    reports_upto(rule, tree, tree.len())
}

/// The diagnostics that `rule` produces on `tree`.
pub open spec fn tree_diagnostics<R: Rule>(rule: &R, tree: &SyntaxTree) -> Seq<DiagnosticView> {
    tree_reports(rule, tree).map_values(
        |r: ReportView| diagnostic_of(rule.spec_name(), rule.spec_severity(), r),
    )
}

pub open spec fn views(ds: Seq<Diagnostic>) -> Seq<DiagnosticView> {
    ds.map_values(|d: Diagnostic| d@)
}

/// Every diagnostic of a rule carries the rule's name and severity, and the
/// message, span and fix of the report it comes from; there is one
/// diagnostic per report.
pub proof fn lemma_diagnostics_carry_rule<R: Rule>(rule: &R, tree: &SyntaxTree)
    ensures
        tree_diagnostics(rule, tree).len() == tree_reports(rule, tree).len(),
        forall|i: int|
            0 <= i < tree_diagnostics(rule, tree).len() ==> {
                let d = #[trigger] tree_diagnostics(rule, tree)[i];
                let r = tree_reports(rule, tree)[i];
                &&& d.rule_id == rule.spec_name()
                &&& d.severity == rule.spec_severity()
                &&& d.message == r.message
                &&& d.span == r.span
                &&& d.fix == r.fix
            },
{
}

/// The reports on the first `k` nodes come first, in the same order, among
/// the reports on the first `j` nodes, for `k <= j`: visiting more nodes only
/// adds reports at the end.
pub proof fn lemma_reports_grow<R: Rule>(rule: &R, tree: &SyntaxTree, k: int, j: int)
    requires
        0 <= k <= j,
    ensures
        reports_upto(rule, tree, j).subrange(0, reports_upto(rule, tree, k).len() as int)
            == reports_upto(rule, tree, k),
        reports_upto(rule, tree, k).len() <= reports_upto(rule, tree, j).len(),
    decreases j - k,
{
    if k < j {
        lemma_reports_grow(rule, tree, k, j - 1);
        let a = reports_upto(rule, tree, k);
        let b = reports_upto(rule, tree, j - 1);
        assert(reports_upto(rule, tree, j) == b + rule.spec_reports(tree, j - 1));
        assert((b + rule.spec_reports(tree, j - 1)).subrange(0, a.len() as int) =~= b.subrange(
            0,
            a.len() as int,
        ));
    } else {
        assert(reports_upto(rule, tree, j).subrange(0, reports_upto(rule, tree, k).len() as int)
            =~= reports_upto(rule, tree, k));
    }
}

/// A rule that reports nothing on any node gives no diagnostics on a tree.
pub proof fn lemma_silent_rule<R: Rule>(rule: &R, tree: &SyntaxTree)
    requires
        forall|n: int| 0 <= n < tree.len() ==> #[trigger] rule.spec_reports(tree, n).len() == 0,
    ensures
        tree_diagnostics(rule, tree).len() == 0,
{
    assert forall|k: int| 0 <= k <= tree.len() implies #[trigger] reports_upto(rule, tree, k).len()
        == 0 by {
        lemma_silent_prefix(rule, tree, k);
    }
}

proof fn lemma_silent_prefix<R: Rule>(rule: &R, tree: &SyntaxTree, k: int)
    requires
        forall|n: int| 0 <= n < tree.len() ==> #[trigger] rule.spec_reports(tree, n).len() == 0,
        k <= tree.len(),
    ensures
        reports_upto(rule, tree, k).len() == 0,
    decreases k,
{
    if k > 0 {
        lemma_silent_prefix(rule, tree, k - 1);
        assert(rule.spec_reports(tree, k - 1).len() == 0);
    }
}

/// A tree with no nodes gives no diagnostics, whatever the rule.
pub proof fn lemma_empty_tree<R: Rule>(rule: &R, tree: &SyntaxTree)
    requires
        tree.len() == 0,
    ensures
        tree_diagnostics(rule, tree).len() == 0,
{
}

/// Visits every node of `tree` in order and collects the reports.
pub fn run_rule<R: Rule>(rule: &R, tree: &SyntaxTree) -> (ctx: RuleContext)
    requires
        tree.wf(),
    ensures
        ctx@ == tree_reports(rule, tree),
{
    let mut ctx = RuleContext::new();
    let n = tree.node_count();
    let mut i: usize = 0;
    while i < n
        invariant
            tree.wf(),
            n == tree.len(),
            0 <= i <= n,
            ctx@ == reports_upto(rule, tree, i as int),
        decreases n - i,
    {
        rule.on_node(tree, i, &mut ctx);
        i = i + 1;
    }
    ctx
}

fn copy_fix(f: &Option<Fix>) -> (r: Option<Fix>)
    ensures
        fix_view(r) == fix_view(*f),
{
    match f {
        Some(x) => Some(Fix { range: x.range, text: x.text.clone() }),
        None => None,
    }
}

/// The diagnostics of `rule` on `tree`: its reports, in node order, each
/// labelled with the rule's name and severity.
pub fn lint_tree<R: Rule>(rule: &R, tree: &SyntaxTree) -> (r: Vec<Diagnostic>)
    requires
        tree.wf(),
    ensures
        views(r@) == tree_diagnostics(rule, tree),
{
    let ctx = run_rule(rule, tree);
    let name = rule.name();
    let severity = rule.default_severity();
    let mut out: Vec<Diagnostic> = Vec::new();
    let mut i: usize = 0;
    while i < ctx.reports.len()
        invariant
            ctx@ == tree_reports(rule, tree),
            name@ == rule.spec_name(),
            severity == rule.spec_severity(),
            0 <= i <= ctx.reports@.len(),
            views(out@) =~= tree_diagnostics(rule, tree).subrange(0, i as int),
        decreases ctx.reports@.len() - i,
    {
        let rep = &ctx.reports[i];
        let d = Diagnostic {
            rule_id: String::from_str(name),
            severity,
            message: rep.message.clone(),
            span: rep.span,
            fix: copy_fix(&rep.fix),
        };
        proof {
            assert(ctx@[i as int] == rep@);
            assert(d@ == diagnostic_of(rule.spec_name(), rule.spec_severity(), ctx@[i as int]));
        }
        let ghost prev = out@;
        out.push(d);
        proof {
            assert(views(out@) =~= views(prev).push(d@));
        }
        i = i + 1;
    }
    out
}

/// The diagnostics of `ds` that the directives in source `s` leave on, in
/// order: a diagnostic is dropped when its rule is switched off on the line
/// where its span starts.
pub open spec fn unsuppressed(s: Seq<u8>, ds: Seq<DiagnosticView>) -> Seq<DiagnosticView>
    decreases ds.len(),
{
    if ds.len() == 0 {
        Seq::empty()
    } else {
        let rest = unsuppressed(s, ds.drop_last());
        let d = ds.last();
        if suppressed(s, encode_utf8(d.rule_id), line_at(s, d.span.start as int)) {
            rest
        } else {
            rest.push(d)
        }
    }
}

/// Where the source holds no `eslint-` text, no diagnostic is dropped.
pub proof fn lemma_nothing_dropped(s: Seq<u8>, ds: Seq<DiagnosticView>)
    requires
        !contains_seq(s, "eslint-".spec_bytes()),
    ensures
        unsuppressed(s, ds) == ds,
    decreases ds.len(),
{
    if ds.len() > 0 {
        lemma_nothing_dropped(s, ds.drop_last());
        let d = ds.last();
        lemma_no_directives(s, encode_utf8(d.rule_id), line_at(s, d.span.start as int));
        assert(ds.drop_last().push(d) =~= ds);
    }
}

/// Dropping keeps the order: what stays is a subsequence of the input, and
/// nothing is added.
pub proof fn lemma_dropping_keeps_order(s: Seq<u8>, ds: Seq<DiagnosticView>)
    ensures
        unsuppressed(s, ds).len() <= ds.len(),
        forall|i: int|
            0 <= i < unsuppressed(s, ds).len() ==> exists|j: int|
                0 <= j < ds.len() && #[trigger] unsuppressed(s, ds)[i] == ds[j],
    decreases ds.len(),
{
    if ds.len() > 0 {
        let rest = ds.drop_last();
        lemma_dropping_keeps_order(s, rest);
        let u = unsuppressed(s, ds);
        let ur = unsuppressed(s, rest);
        assert forall|i: int| 0 <= i < u.len() implies exists|j: int|
            0 <= j < ds.len() && #[trigger] u[i] == ds[j] by {
            if i < ur.len() {
                assert(u[i] == ur[i]);
                let j = choose|j: int| 0 <= j < rest.len() && ur[i] == rest[j];
                assert(rest[j] == ds[j]);
            } else {
                assert(u[i] == ds[ds.len() - 1]);
            }
        }
    }
}

/// A diagnostic whose span lies within `len` bytes, and whose fix, where it
/// has one, starts and ends within them.
pub open spec fn diagnostic_within(d: DiagnosticView, len: int) -> bool {
    &&& span_within(d.span, len)
    &&& d.fix matches Some(f) ==> f.range.start <= len && f.range.end <= len
}

proof fn lemma_reports_upto_within<R: Rule>(rule: &R, tree: &SyntaxTree, k: int)
    requires
        tree.wf(),
        tree.bytes().len() <= u32::MAX,
        k <= tree.len(),
    ensures
        all_within(reports_upto(rule, tree, k), tree.bytes().len() as int),
    decreases k,
{
    if k > 0 {
        lemma_reports_upto_within(rule, tree, k - 1);
        rule.lemma_reports_within(tree, k - 1);
        lemma_concat_within(
            reports_upto(rule, tree, k - 1),
            rule.spec_reports(tree, k - 1),
            tree.bytes().len() as int,
        );
    }
}

/// Every diagnostic of a rule on a tree lies within the source: its span
/// starts no later than it ends and ends by the end of the source, and its
/// fix starts and ends within the source. (Offsets are `u32`, so the source
/// is taken to be at most `u32::MAX` bytes long.)
pub proof fn lemma_diagnostics_within<R: Rule>(rule: &R, tree: &SyntaxTree)
    requires
        tree.wf(),
        tree.bytes().len() <= u32::MAX,
    ensures
        forall|i: int|
            0 <= i < tree_diagnostics(rule, tree).len() ==> diagnostic_within(
                #[trigger] tree_diagnostics(rule, tree)[i],
                tree.bytes().len() as int,
            ),
{
    lemma_reports_upto_within(rule, tree, tree.len());
    assert forall|i: int| 0 <= i < tree_diagnostics(rule, tree).len() implies diagnostic_within(
        #[trigger] tree_diagnostics(rule, tree)[i],
        tree.bytes().len() as int,
    ) by {
        assert(report_within(tree_reports(rule, tree)[i], tree.bytes().len() as int));
    }
}

/// What dropping leaves of diagnostics that lie within the source still does.
pub proof fn lemma_unsuppressed_within(s: Seq<u8>, ds: Seq<DiagnosticView>, len: int)
    requires
        forall|i: int| 0 <= i < ds.len() ==> diagnostic_within(#[trigger] ds[i], len),
    ensures
        forall|i: int|
            0 <= i < unsuppressed(s, ds).len() ==> diagnostic_within(
                #[trigger] unsuppressed(s, ds)[i],
                len,
            ),
{
    lemma_dropping_keeps_order(s, ds);
    assert forall|i: int| 0 <= i < unsuppressed(s, ds).len() implies diagnostic_within(
        #[trigger] unsuppressed(s, ds)[i],
        len,
    ) by {
        let j = choose|j: int| 0 <= j < ds.len() && unsuppressed(s, ds)[i] == ds[j];
        assert(diagnostic_within(ds[j], len));
    }
}

/// Drops the diagnostics that the directives in `source` switch off.
pub fn drop_suppressed(source: &str, ds: Vec<Diagnostic>) -> (r: Vec<Diagnostic>)
    ensures
        views(r@) == unsuppressed(source.spec_bytes(), views(ds@)),
{
    let s = source.as_bytes();
    let ghost all = views(ds@);
    let mut input = ds;
    let mut out: Vec<Diagnostic> = Vec::new();
    let ghost mut k: int = 0;
    assert(all.subrange(0, 0) =~= Seq::<DiagnosticView>::empty());
    assert(all.subrange(0, all.len() as int) =~= all);
    while input.len() > 0
        invariant
            s@ == source.spec_bytes(),
            0 <= k <= all.len(),
            k + input@.len() == all.len(),
            views(input@) == all.subrange(k, all.len() as int),
            views(out@) == unsuppressed(s@, all.subrange(0, k)),
        decreases input@.len(),
    {
        let ghost before = input@;
        let d = input.remove(0);
        proof {
            assert(views(before)[0] == d@);
            assert forall|i: int| 0 <= i < input@.len() implies #[trigger] views(input@)[i] == all[k
                + 1 + i] by {
                assert(input@[i] == before[i + 1]);
                assert(views(before)[i + 1] == all.subrange(k, all.len() as int)[i + 1]);
            }
            assert(views(input@) =~= all.subrange(k + 1, all.len() as int));
            assert(all.subrange(0, k + 1).drop_last() =~= all.subrange(0, k));
            assert(all.subrange(0, k + 1).last() == d@);
        }
        let line = line_at_exec(s, d.span.start as usize);
        let rule = d.rule_id.as_str().as_bytes();
        if !is_suppressed(s, rule, line) {
            let ghost prev = views(out@);
            out.push(d);
            proof {
                assert(views(out@) =~= prev.push(d@));
            }
        }
        proof {
            k = k + 1;
        }
    }
    assert(all.subrange(0, k) =~= all);
    out
}

/// Parses `source` and lints it with `rule`: the diagnostics are those of
/// [`lint_tree`] on the tree that [`parse`] gives for `source` (tree-sitter's
/// parse of it, see [`parse_of`]), less those that the directives in `source`
/// switch off.
pub fn lint<R: Rule>(rule: R, source: &str) -> (r: Vec<Diagnostic>)
    ensures
        exists|t: SyntaxTree|
            parse_of(&t, source@) && views(r@) == unsuppressed(
                source.spec_bytes(),
                tree_diagnostics(&rule, &t),
            ),
        source.spec_bytes().len() <= u32::MAX ==> forall|i: int|
            0 <= i < r@.len() ==> diagnostic_within(
                #[trigger] views(r@)[i],
                source.spec_bytes().len() as int,
            ),
{
    let tree = parse(source);
    let ds = lint_tree(&rule, &tree);
    let r = drop_suppressed(source, ds);
    proof {
        if source.spec_bytes().len() <= u32::MAX {
            lemma_diagnostics_within(&rule, &tree);
            lemma_unsuppressed_within(
                source.spec_bytes(),
                tree_diagnostics(&rule, &tree),
                source.spec_bytes().len() as int,
            );
        }
    }
    r
}

} // verus!

//! What a rule reports: spans, messages, fixes and the collected diagnostics.
use vstd::prelude::*;
use vstd::string::StringExecFns;

verus! {

/// How serious a rule's findings are.
#[derive(Clone, Copy, Debug, PartialEq, Eq, Structural)]
pub enum Severity {
    Error,
    Warning,
}

/// A byte range `[start, end)` in the source.
#[derive(Clone, Copy, Debug, PartialEq, Eq, Structural)]
pub struct Span {
    pub start: u32,
    pub end: u32,
}

/// A replacement of the source bytes in `range` by `text`.
#[derive(Debug)]
pub struct Fix {
    pub range: Span,
    pub text: String,
}

pub ghost struct FixView {
    pub range: Span,
    pub text: Seq<char>,
}

impl View for Fix {
    type V = FixView;

    open spec fn view(&self) -> FixView {
        FixView { range: self.range, text: self.text@ }
    }
}

/// One finding of a rule, before the rule's name is attached.
#[derive(Debug)]
pub struct Report {
    pub span: Span,
    pub message: String,
    pub fix: Option<Fix>,
}

pub ghost struct ReportView {
    pub span: Span,
    pub message: Seq<char>,
    pub fix: Option<FixView>,
}

pub open spec fn fix_view(f: Option<Fix>) -> Option<FixView> {
    match f {
        Some(x) => Some(x@),
        None => None,
    }
}

impl View for Report {
    type V = ReportView;

    open spec fn view(&self) -> ReportView {
        ReportView { span: self.span, message: self.message@, fix: fix_view(self.fix) }
    }
}

/// A report without a fix.
pub open spec fn plain(start: u32, end: u32, message: Seq<char>) -> ReportView {
    ReportView { span: Span { start, end }, message, fix: None }
}

/// A report with a fix.
pub open spec fn with_fix(
    start: u32,
    end: u32,
    message: Seq<char>,
    fix_start: u32,
    fix_end: u32,
    text: Seq<char>,
) -> ReportView {
    ReportView {
        span: Span { start, end },
        message,
        fix: Some(FixView { range: Span { start: fix_start, end: fix_end }, text }),
    }
}

/// The reports `f` makes on each node of `cs`, in order.
pub open spec fn each_node(cs: Seq<usize>, f: spec_fn(usize) -> Seq<ReportView>) -> Seq<ReportView>
    decreases cs.len(),
{
    if cs.len() == 0 {
        Seq::empty()
    } else {
        each_node(cs.drop_last(), f) + f(cs.last())
    }
}

pub proof fn lemma_each_node_step(
    cs: Seq<usize>,
    f: spec_fn(usize) -> Seq<ReportView>,
    i: int,
)
    requires
        0 <= i < cs.len(),
    ensures
        each_node(cs.subrange(0, i + 1), f) == each_node(cs.subrange(0, i), f) + f(cs[i]),
{
    assert(cs.subrange(0, i + 1).drop_last() =~= cs.subrange(0, i));
}

pub proof fn lemma_each_node_all(cs: Seq<usize>, f: spec_fn(usize) -> Seq<ReportView>)
    ensures
        each_node(cs.subrange(0, cs.len() as int), f) == each_node(cs, f),
{
    assert(cs.subrange(0, cs.len() as int) =~= cs);
}

/// A range that starts no later than it ends, within `len` bytes.
pub open spec fn span_within(sp: Span, len: int) -> bool {
    sp.start <= sp.end && sp.end <= len
}

/// A report whose span lies within `len` bytes, and whose fix, where it has
/// one, starts and ends within them.
pub open spec fn report_within(r: ReportView, len: int) -> bool {
    &&& span_within(r.span, len)
    &&& r.fix matches Some(f) ==> f.range.start <= len && f.range.end <= len
}

/// Every report of `rs` lies within `len` bytes.
pub open spec fn all_within(rs: Seq<ReportView>, len: int) -> bool {
    forall|i: int| 0 <= i < rs.len() ==> report_within(#[trigger] rs[i], len)
}

/// Reports that lie within the source, put together, still do.
pub proof fn lemma_concat_within(a: Seq<ReportView>, b: Seq<ReportView>, len: int)
    requires
        all_within(a, len),
        all_within(b, len),
    ensures
        all_within(a + b, len),
{
    assert forall|i: int| 0 <= i < (a + b).len() implies report_within(#[trigger] (a + b)[i], len) by {
        if i < a.len() {
            assert((a + b)[i] == a[i]);
        } else {
            assert((a + b)[i] == b[i - a.len()]);
        }
    }
}

/// The reports on each node of `cs` lie within the source where the reports
/// on every one of them do.
pub proof fn lemma_each_node_within(cs: Seq<usize>, f: spec_fn(usize) -> Seq<ReportView>, len: int)
    requires
        forall|i: int| 0 <= i < cs.len() ==> all_within(#[trigger] f(cs[i]), len),
    ensures
        all_within(each_node(cs, f), len),
    decreases cs.len(),
{
    if cs.len() > 0 {
        let rest = cs.drop_last();
        assert forall|i: int| 0 <= i < rest.len() implies all_within(#[trigger] f(rest[i]), len) by {
            assert(rest[i] == cs[i]);
        }
        lemma_each_node_within(rest, f, len);
        assert(all_within(f(cs[cs.len() - 1]), len));
        lemma_concat_within(each_node(rest, f), f(cs.last()), len);
    }
}

/// Whatever `f` reports on one node of `cs` is among the reports on all of
/// them.
pub proof fn lemma_each_node_has(
    cs: Seq<usize>,
    f: spec_fn(usize) -> Seq<ReportView>,
    i: int,
    x: ReportView,
)
    requires
        0 <= i < cs.len(),
        f(cs[i]).contains(x),
    ensures
        each_node(cs, f).contains(x),
    decreases cs.len(),
{
    let rest = cs.drop_last();
    let before = each_node(rest, f);
    assert(each_node(cs, f) == before + f(cs.last()));
    if i == cs.len() - 1 {
        let fi = f(cs[i]);
        let k = choose|k: int| 0 <= k < fi.len() && #[trigger] fi[k] == x;
        assert((before + f(cs.last()))[before.len() + k] == x);
    } else {
        assert(rest[i] == cs[i]);
        lemma_each_node_has(rest, f, i, x);
        let k = choose|k: int| 0 <= k < before.len() && #[trigger] before[k] == x;
        assert((before + f(cs.last()))[k] == x);
    }
}

/// Collects the reports of one rule.
pub struct RuleContext {
    pub reports: Vec<Report>,
}

impl View for RuleContext {
    type V = Seq<ReportView>;

    open spec fn view(&self) -> Seq<ReportView> {
        self.reports@.map_values(|r: Report| r@)
    }
}

impl RuleContext {
    pub fn new() -> (r: RuleContext)
        ensures
            r@ == Seq::<ReportView>::empty(),
    {
        let r = RuleContext { reports: Vec::new() };
        assert(r@ =~= Seq::<ReportView>::empty());
        r
    }

    /// Records a finding on `[start, end)`.
    pub fn report(&mut self, start: u32, end: u32, message: &str)
        ensures
            final(self)@ == old(self)@.push(plain(start, end, message@)),
    {
        self.report_string(start, end, String::from_str(message));
    }

    /// Records a finding on `[start, end)` whose message was built at run time.
    pub fn report_string(&mut self, start: u32, end: u32, message: String)
        ensures
            final(self)@ == old(self)@.push(plain(start, end, message@)),
    {
        self.reports.push(Report { span: Span { start, end }, message, fix: None });
        assert(self@ =~= old(self)@.push(plain(start, end, message@)));
    }

    /// Records a finding on `[start, end)` together with a fix.
    pub fn report_with_fix(&mut self, start: u32, end: u32, message: &str, fix: Fix)
        ensures
            final(self)@ == old(self)@.push(
                ReportView {
                    span: Span { start, end },
                    message: message@,
                    fix: Some(fix@),
                },
            ),
    {
        let ghost fv = fix@;
        self.reports.push(
            Report { span: Span { start, end }, message: String::from_str(message), fix: Some(fix) },
        );
        assert(self@ =~= old(self)@.push(
            ReportView { span: Span { start, end }, message: message@, fix: Some(fv) },
        ));
    }
}

/// A finding of a rule, as the linter hands it out.
#[derive(Debug)]
pub struct Diagnostic {
    pub rule_id: String,
    pub severity: Severity,
    pub message: String,
    pub span: Span,
    pub fix: Option<Fix>,
}

pub ghost struct DiagnosticView {
    pub rule_id: Seq<char>,
    pub severity: Severity,
    pub message: Seq<char>,
    pub span: Span,
    pub fix: Option<FixView>,
}

impl View for Diagnostic {
    type V = DiagnosticView;

    open spec fn view(&self) -> DiagnosticView {
        DiagnosticView {
            rule_id: self.rule_id@,
            severity: self.severity,
            message: self.message@,
            span: self.span,
            fix: fix_view(self.fix),
        }
    }
}

/// The diagnostic that a report of rule `rule_id` becomes.
pub open spec fn diagnostic_of(rule_id: Seq<char>, severity: Severity, r: ReportView) -> DiagnosticView {
    DiagnosticView { rule_id, severity, message: r.message, span: r.span, fix: r.fix }
}

} // verus!

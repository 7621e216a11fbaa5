use vstd::prelude::*;
use crate::helpers::lemma_named_children_valid;
use crate::diagnostic::{all_within, lemma_concat_within};
use crate::diagnostic::{plain, ReportView, RuleContext, Severity};
use vstd::string::StringExecFns;
use crate::rule::Rule;
use crate::tree::{SyntaxTree, lemma_node_span};

verus! {

/// Disallows importing from a module whose source text an earlier top-level
/// import already names.
#[derive(Clone, Copy, Debug)]
pub struct NoDuplicateImports;

impl Rule for NoDuplicateImports {
    open spec fn spec_name(&self) -> Seq<char> {
        "no-duplicate-imports"@
    }

    open spec fn spec_severity(&self) -> Severity {
        Severity::Error
    }

    open spec fn spec_reports(&self, t: &SyntaxTree, n: int) -> Seq<ReportView> {
        if t.kind_is(n, "program") {
            duplicate_imports(t, t.named_children(n), t.named_children(n).len() as int)
        } else {
            Seq::empty()
        }
    }

    proof fn lemma_reports_within(&self, t: &SyntaxTree, n: int) {
        lemma_named_children_valid(t, n);
        let cs = t.named_children(n);
        assert forall|i: int| 0 <= i < cs.len() implies t.valid_node(#[trigger] cs[i] as int) by {}
        lemma_imports_within(t, cs, cs.len() as int);
    }

    fn name(&self) -> &'static str {
        "no-duplicate-imports"
    }

    fn default_severity(&self) -> Severity {
        Severity::Error
    }

    fn on_node(&self, t: &SyntaxTree, node: usize, ctx: &mut RuleContext) {
        if !t.has_kind(node, "program") {
            return;
        }
        let children = t.named_children_of(node);
        let ghost before = ctx@;
        let mut i: usize = 0;
        while i < children.len()
            invariant
                t.wf(),
                children@ == t.named_children(node as int),
                forall|j: int| 0 <= j < children@.len() ==> node < #[trigger] children@[j] < t.len(),
                0 <= i <= children@.len(),
                ctx@ == before + duplicate_imports(t, children@, i as int),
            decreases children.len() - i,
        {
            if let Some(source) = import_source_of(t, children[i]) {
                let mut dup = false;
                let mut j: usize = 0;
                while j < i
                    invariant
                        t.wf(),
                        forall|k: int| 0 <= k < children@.len() ==> node < #[trigger] children@[k] < t.len(),
                        0 <= j <= i < children@.len(),
                        t.valid_node(source as int),
                        dup == imported_before(t, children@, j as int, t.text(source as int)),
                    decreases i - j,
                {
                    if let Some(w) = import_source_of(t, children[j]) {
                        if t.same_text(w, source) {
                            dup = true;
                        }
                    }
                    j = j + 1;
                }
                if dup {
                    let child = children[i];
                    let mut msg = String::from_str("'");
                    msg.append(t.text_string(source).as_str());
                    msg.append("' imported multiple times.");
                    ctx.report_string(t.start_byte(child), t.end_byte(child), msg);
                }
            }
            i = i + 1;
        }
    }
}

/// The module source of an import statement.
pub open spec fn import_source(t: &SyntaxTree, c: int) -> Option<usize> {
    if t.kind_is(c, "import_statement") {
        t.field(c, "source")
    } else {
        None
    }
}

fn import_source_of(t: &SyntaxTree, c: usize) -> (r: Option<usize>)
    requires
        t.wf(),
        t.valid_node(c as int),
    ensures
        r == import_source(t, c as int),
        r matches Some(v) ==> t.valid_node(v as int),
{
    if t.has_kind(c, "import_statement") {
        t.child_by_field_name(c, "source")
    } else {
        None
    }
}

/// One of the first `j` statements imports from a source with text `text`.
pub open spec fn imported_before(t: &SyntaxTree, stmts: Seq<usize>, j: int, text: Seq<u8>) -> bool {
    exists|k: int|
        0 <= k < j && match import_source(t, #[trigger] stmts[k] as int) {
            Some(w) => t.text(w as int) == text,
            None => false,
        }
}

/// Reports for the imports among the first `k` statements whose source repeats
/// an earlier import's.
pub open spec fn duplicate_imports(t: &SyntaxTree, stmts: Seq<usize>, k: int) -> Seq<ReportView>
    decreases k,
{
    if k <= 0 {
        Seq::empty()
    } else {
        let c = stmts[k - 1] as int;
        duplicate_imports(t, stmts, k - 1) + match import_source(t, c) {
            Some(v) if imported_before(t, stmts, k - 1, t.text(v as int)) => seq![
                plain(
                    t.start(c),
                    t.end(c),
                    "'"@ + t.text_chars(v as int) + "' imported multiple times."@,
                ),
            ],
            _ => Seq::empty(),
        }
    }
}

proof fn lemma_imports_within(t: &SyntaxTree, stmts: Seq<usize>, k: int)
    requires
        t.wf(),
        t.bytes().len() <= u32::MAX,
        k <= stmts.len(),
        forall|i: int| 0 <= i < stmts.len() ==> t.valid_node(#[trigger] stmts[i] as int),
    ensures
        all_within(duplicate_imports(t, stmts, k), t.bytes().len() as int),
    decreases k,
{
    if k > 0 {
        lemma_imports_within(t, stmts, k - 1);
        let c = stmts[k - 1] as int;
        lemma_node_span(t, c);
        lemma_concat_within(
            duplicate_imports(t, stmts, k - 1),
            match import_source(t, c) {
                Some(v) if imported_before(t, stmts, k - 1, t.text(v as int)) => seq![
                    plain(
                        t.start(c),
                        t.end(c),
                        "'"@ + t.text_chars(v as int) + "' imported multiple times."@,
                    ),
                ],
                _ => Seq::empty(),
            },
            t.bytes().len() as int,
        );
    }
}

/// An earlier statement among the first `j` of `stmts` imports from a module
/// written as `text`.
pub open spec fn earlier_import_from(t: &SyntaxTree, stmts: Seq<usize>, j: int, text: Seq<u8>) -> bool {
    exists|i: int|
        #![trigger stmts[i]]
        0 <= i < j && t.kind_is(stmts[i] as int, "import_statement") && match t.field(
            stmts[i] as int,
            "source",
        ) {
            Some(w) => t.text(w as int) == text,
            None => false,
        }
}

/// Statement `j` of a program adds a report exactly when it is an import
/// whose `source` is written as the `source` of an earlier import, whatever
/// the two import: the report spans the statement and names the module.
pub proof fn lemma_import_reported(t: &SyntaxTree, stmts: Seq<usize>, j: int)
    requires
        0 <= j < stmts.len(),
    ensures
        duplicate_imports(t, stmts, j + 1) == duplicate_imports(t, stmts, j) + match t.field(
            stmts[j] as int,
            "source",
        ) {
            Some(v) if t.kind_is(stmts[j] as int, "import_statement") && earlier_import_from(
                t,
                stmts,
                j,
                t.text(v as int),
            ) => seq![
                plain(
                    t.start(stmts[j] as int),
                    t.end(stmts[j] as int),
                    "'"@ + t.text_chars(v as int) + "' imported multiple times."@,
                ),
            ],
            _ => Seq::<ReportView>::empty(),
        },
{
    if let Some(v) = t.field(stmts[j] as int, "source") {
        let text = t.text(v as int);
        if imported_before(t, stmts, j, text) {
            let k = choose|k: int|
                0 <= k < j && match import_source(t, #[trigger] stmts[k] as int) {
                    Some(w) => t.text(w as int) == text,
                    None => false,
                };
            assert(t.kind_is(stmts[k] as int, "import_statement"));
        }
        if earlier_import_from(t, stmts, j, text) {
            let i = choose|i: int|
                #![trigger stmts[i]]
                0 <= i < j && t.kind_is(stmts[i] as int, "import_statement") && match t.field(
                    stmts[i] as int,
                    "source",
                ) {
                    Some(w) => t.text(w as int) == text,
                    None => false,
                };
            assert(import_source(t, stmts[i] as int) == t.field(stmts[i] as int, "source"));
        }
    }
}

} // verus!

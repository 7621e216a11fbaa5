//! The interface every lint rule implements.
use vstd::prelude::*;
use crate::diagnostic::{all_within, ReportView, RuleContext, Severity};
use crate::tree::SyntaxTree;

verus! {

/// A lint rule: it looks at one node at a time and reports what it finds.
pub trait Rule {
    /// The rule's identifier, such as `no-debugger`.
    spec fn spec_name(&self) -> Seq<char>;

    /// The severity the rule reports with.
    spec fn spec_severity(&self) -> Severity;

    /// The reports the rule makes when it visits node `n` of `tree`.
    spec fn spec_reports(&self, tree: &SyntaxTree, n: int) -> Seq<ReportView>;

    /// What the rule reports on a node lies within the source: spans and fix
    /// ranges start no later than they end, and end by the end of the source.
    proof fn lemma_reports_within(&self, tree: &SyntaxTree, n: int)
        requires
            tree.wf(),
            tree.valid_node(n),
            tree.bytes().len() <= u32::MAX,
        ensures
            all_within(self.spec_reports(tree, n), tree.bytes().len() as int),
    ;

    fn name(&self) -> (r: &'static str)
        ensures
            r@ == self.spec_name(),
    ;

    fn default_severity(&self) -> (r: Severity)
        ensures
            r == self.spec_severity(),
    ;

    /// Visits node `node`, appending the reports to `ctx`.
    fn on_node(&self, tree: &SyntaxTree, node: usize, ctx: &mut RuleContext)
        requires
            tree.wf(),
            tree.valid_node(node as int),
        ensures
            final(ctx)@ == old(ctx)@ + self.spec_reports(tree, node as int),
    ;
}

} // verus!

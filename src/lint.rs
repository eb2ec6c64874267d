//! Linting one parsed file with the loose-equality rule.
use crate::no_double_equals::{diagnostic, is_diagnostic_for, signals, signals_of, RuleDiagnostic};
use crate::process_file::{FileStatus, Message};
use crate::syntax::{source_of, SyntaxTree};
use vstd::prelude::*;

verus! {

/// `r` reports exactly the rule's findings on `tree`, for the file `name`:
/// success where there are none, else one diagnostic per signal, in order.
pub open spec fn is_lint_outcome(r: FileStatus, name: Seq<char>, tree: SyntaxTree) -> bool {
    let sigs = signals_of(tree.tokens@, tree.binaries@);
    if sigs.len() == 0 {
        r is Success
    } else {
        match r {
            FileStatus::Message(
                Message::Diagnostics { name: n, content, diagnostics, skipped_diagnostics },
            ) => {
                &&& n@ == name
                &&& content@ == source_of(tree.tokens@)
                &&& skipped_diagnostics == 0
                &&& diagnostics@.len() == sigs.len()
                &&& forall|i: int|
                    0 <= i < sigs.len() ==> is_diagnostic_for(
                        #[trigger] diagnostics@[i],
                        tree.tokens@,
                        sigs[i] as int,
                    )
            },
            _ => false,
        }
    }
}

/// Run the rule over every binary expression of the file and report what it
/// found.
pub fn lint_tree(name: &str, tree: &SyntaxTree) -> (r: FileStatus)
    requires
        source_of(tree.tokens@).len() <= usize::MAX,
    ensures
        is_lint_outcome(r, name@, *tree),
{
    let sigs = signals(tree);
    if sigs.len() == 0 {
        return FileStatus::Success;
    }
    proof {
        crate::no_double_equals::lemma_signals_point_at_loose(tree.tokens@, tree.binaries@);
    }
    let mut diagnostics: Vec<RuleDiagnostic> = Vec::new();
    let mut i: usize = 0;
    while i < sigs.len()
        invariant
            i <= sigs.len(),
            sigs@ == signals_of(tree.tokens@, tree.binaries@),
            source_of(tree.tokens@).len() <= usize::MAX,
            forall|m: int| 0 <= m < sigs@.len() ==> #[trigger] sigs@[m] < tree.tokens@.len(),
            diagnostics@.len() == i,
            forall|m: int|
                0 <= m < i ==> is_diagnostic_for(
                    #[trigger] diagnostics@[m],
                    tree.tokens@,
                    sigs@[m] as int,
                ),
        decreases sigs.len() - i,
    {
        let op = sigs[i];
        assert(op < tree.tokens@.len());
        diagnostics.push(diagnostic(tree, op));
        i = i + 1;
    }
    FileStatus::Message(
        Message::Diagnostics {
            name: name.to_owned(),
            content: tree.text(),
            diagnostics,
            skipped_diagnostics: 0,
        },
    )
}

} // verus!

//! A model of the destination tree, to say what performing the steps of an
//! extraction does to it.
//!
//! The model knows a tree by the directories that were asked for, the
//! content of its files and the modes given to them. It leaves out the
//! ancestors that creating a path brings with it, and every way in which
//! the file system can fail.

use crate::extract::{all_below, StepView};
use crate::path::descends_from;
use vstd::prelude::*;

verus! {

/// A tree of files, by path.
pub struct TreeModel {
    pub directories: Set<Seq<char>>,
    pub files: Map<Seq<char>, Seq<u8>>,
    pub modes: Map<Seq<char>, u32>,
}

/// The tree after one step. A file written without a mode keeps the mode
/// that the tree had for its path, if any.
pub open spec fn after_step(tree: TreeModel, step: StepView) -> TreeModel {
    match step {
        StepView::CreateDirectory { path } => TreeModel {
            directories: tree.directories.insert(path),
            ..tree
        },
        StepView::WriteFile { path, content, mode } => TreeModel {
            files: tree.files.insert(path, content),
            modes: match mode {
                Some(m) => tree.modes.insert(path, m),
                None => tree.modes,
            },
            ..tree
        },
    }
}

/// The tree after `steps`, performed in their order.
pub open spec fn after_steps(tree: TreeModel, steps: Seq<StepView>) -> TreeModel
    decreases steps.len(),
{
    if steps.len() == 0 {
        tree
    } else {
        after_step(after_steps(tree, steps.drop_last()), steps.last())
    }
}

/// The tree without anything in it.
pub open spec fn empty_tree() -> TreeModel {
    TreeModel { directories: Set::empty(), files: Map::empty(), modes: Map::empty() }
}

/// `base` with everything that `over` holds laid over it.
pub open spec fn overlaid(base: TreeModel, over: TreeModel) -> TreeModel {
    TreeModel {
        directories: base.directories.union(over.directories),
        files: base.files.union_prefer_right(over.files),
        modes: base.modes.union_prefer_right(over.modes),
    }
}

/// Whether two trees hold the same.
pub open spec fn same_tree(a: TreeModel, b: TreeModel) -> bool {
    &&& a.directories =~= b.directories
    &&& a.files =~= b.files
    &&& a.modes =~= b.modes
}

/// Performing steps on a tree gives the tree with the steps' own outcome
/// laid over it: what the steps write does not depend on what was there.
pub proof fn lemma_steps_overlay(tree: TreeModel, steps: Seq<StepView>)
    ensures
        same_tree(after_steps(tree, steps), overlaid(tree, after_steps(empty_tree(), steps))),
    decreases steps.len(),
{
    if steps.len() > 0 {
        lemma_steps_overlay(tree, steps.drop_last());
    }
}

/// Extracting twice gives what extracting once gives: performing the
/// same steps again on the tree they produced changes nothing.
pub proof fn lemma_extraction_is_idempotent(tree: TreeModel, steps: Seq<StepView>)
    ensures
        same_tree(after_steps(after_steps(tree, steps), steps), after_steps(tree, steps)),
{
    let once = after_steps(tree, steps);
    lemma_steps_overlay(tree, steps);
    lemma_steps_overlay(once, steps);
}

/// Steps that all lie below a root leave everything outside the root as
/// it was: no directory, file or mode is created or changed there.
pub proof fn lemma_outside_is_untouched(tree: TreeModel, steps: Seq<StepView>, dest: Seq<char>)
    requires
        all_below(steps, dest),
    ensures
        forall|path: Seq<char>|
            !descends_from(path, dest) ==> {
                let after = after_steps(tree, steps);
                &&& after.directories.contains(path) == tree.directories.contains(path)
                &&& after.files.contains_key(path) == tree.files.contains_key(path)
                &&& after.files.contains_key(path) ==> after.files[path] == tree.files[path]
                &&& after.modes.contains_key(path) == tree.modes.contains_key(path)
                &&& after.modes.contains_key(path) ==> after.modes[path] == tree.modes[path]
            },
    decreases steps.len(),
{
    if steps.len() > 0 {
        let earlier = steps.drop_last();
        assert forall|k: int| 0 <= k < earlier.len() implies descends_from(
            (#[trigger] earlier[k]).target(),
            dest,
        ) by {
            assert(earlier[k] == steps[k]);
        }
        lemma_outside_is_untouched(tree, earlier, dest);
        assert(descends_from(steps[steps.len() - 1].target(), dest));
    }
}

} // verus!

//! What a whole walk finds.
//!
//! A walk is a run of the walker in which every directory handed out is
//! answered with its listing. This module follows such a run in the
//! abstract, over a tree given by what listing each directory yields, and
//! shows that a walk which comes to its end has found every file and every
//! directory that can be reached from where it started.

use crate::walk::{
    found_in, found_of, items_fit, subdirectories_in, subdirectory_of, DirView, FoundView, ItemView,
};
use vstd::prelude::*;

verus! {

/// The entries found by a walk over the tree `listing` that has the
/// directories `pending` still to list and at most `turns` listings to
/// take; the next directory listed is the last of `pending`. `None` where
/// a listing is refused or the turns run out before the directories do.
pub open spec fn walk(
    listing: spec_fn(Seq<char>) -> Seq<ItemView>,
    pending: Seq<DirView>,
    limit: nat,
    turns: nat,
) -> Option<Seq<FoundView>>
    decreases turns,
{
    if pending.len() == 0 {
        Some(Seq::empty())
    } else if turns == 0 {
        None
    } else {
        let dir = pending.last();
        let items = listing(dir.relative);
        if !items_fit(dir, limit, items, items.len() as int) {
            None
        } else {
            match walk(
                listing,
                pending.drop_last() + subdirectories_in(dir, items),
                limit,
                (turns - 1) as nat,
            ) {
                Some(later) => Some(found_in(dir, items) + later),
                None => None,
            }
        }
    }
}

/// Whether `child` is a subdirectory that the listing of `parent` shows.
pub open spec fn is_child(
    listing: spec_fn(Seq<char>) -> Seq<ItemView>,
    parent: DirView,
    child: DirView,
) -> bool {
    exists|k: int|
        0 <= k < listing(parent.relative).len() && #[trigger] subdirectory_of(
            parent,
            listing(parent.relative)[k],
        ) == Some(child)
}

/// Whether `dirs` leads down the tree: each directory after the first is
/// a subdirectory that the listing of the one before it shows.
pub open spec fn is_descent(listing: spec_fn(Seq<char>) -> Seq<ItemView>, dirs: Seq<DirView>) -> bool {
    &&& dirs.len() >= 1
    &&& forall|i: int|
        0 <= i < dirs.len() - 1 ==> is_child(listing, #[trigger] dirs[i], dirs[i + 1])
}

/// What is picked out of a sequence holds the pick of each of its
/// elements that has one.
pub proof fn lemma_pick_is_kept<A, B>(s: Seq<A>, pick: spec_fn(A) -> Option<B>, k: int)
    requires
        0 <= k < s.len(),
        pick(s[k]) is Some,
    ensures
        s.filter_map(pick).contains(pick(s[k])->0),
    decreases s.len(),
{
    let all = s.filter_map(pick);
    let earlier = s.drop_last().filter_map(pick);
    if k == s.len() - 1 {
        assert(all =~= earlier + seq![pick(s[k])->0]);
        assert(all[earlier.len() as int] == pick(s[k])->0);
    } else {
        lemma_pick_is_kept(s.drop_last(), pick, k);
        let at = choose|at: int| 0 <= at < earlier.len() && earlier[at] == pick(s[k])->0;
        assert(all[at] == pick(s[k])->0);
    }
}

/// A walk that comes to its end has found the entry of every file and
/// directory in the listing of every directory that lies, at any depth,
/// below one of the directories it had still to list: of the last of
/// every descent that starts at one of them.
pub proof fn lemma_walk_finds_everything(
    listing: spec_fn(Seq<char>) -> Seq<ItemView>,
    pending: Seq<DirView>,
    limit: nat,
    turns: nat,
    descent: Seq<DirView>,
    k: int,
)
    requires
        walk(listing, pending, limit, turns) is Some,
        is_descent(listing, descent),
        pending.contains(descent[0]),
        0 <= k < listing(descent.last().relative).len(),
        found_of(descent.last(), listing(descent.last().relative)[k]) is Some,
    ensures
        walk(listing, pending, limit, turns)->0.contains(
            found_of(descent.last(), listing(descent.last().relative)[k])->0,
        ),
    decreases turns,
{
    let from = descent[0];
    let to = descent.last();
    let dir = pending.last();
    let items = listing(dir.relative);
    let rest = pending.drop_last() + subdirectories_in(dir, items);
    let later = walk(listing, rest, limit, (turns - 1) as nat)->0;
    let here = found_in(dir, items);
    let found = walk(listing, pending, limit, turns)->0;
    let wanted = found_of(to, listing(to.relative)[k])->0;
    assert(found == here + later);
    if from == dir && descent.len() == 1 {
        lemma_pick_is_kept(items, |item: ItemView| found_of(dir, item), k);
        let at = choose|at: int| 0 <= at < here.len() && here[at] == wanted;
        assert(found[at] == wanted);
    } else {
        let onward = if from == dir {
            let mid = descent[1];
            assert(is_child(listing, descent[0], descent[1]));
            let j = choose|j: int|
                0 <= j < items.len() && #[trigger] subdirectory_of(dir, items[j]) == Some(mid);
            lemma_pick_is_kept(items, |item: ItemView| subdirectory_of(dir, item), j);
            let subdirectories = subdirectories_in(dir, items);
            let at = choose|at: int| 0 <= at < subdirectories.len() && subdirectories[at] == mid;
            assert(rest[pending.len() - 1 + at] == mid);
            let shorter = descent.skip(1);
            assert forall|i: int| 0 <= i < shorter.len() - 1 implies is_child(
                listing,
                #[trigger] shorter[i],
                shorter[i + 1],
            ) by {
                assert(is_child(listing, descent[i + 1], descent[i + 1 + 1]));
            }
            shorter
        } else {
            let at = choose|at: int| 0 <= at < pending.len() && pending[at] == from;
            assert(rest[at] == from);
            descent
        };
        assert(onward.last() == to);
        lemma_walk_finds_everything(listing, rest, limit, (turns - 1) as nat, onward, k);
        let at = choose|at: int| 0 <= at < later.len() && later[at] == wanted;
        assert(found[here.len() + at] == wanted);
    }
}

/// Whatever a walk has found is the entry of a file or directory in the
/// listing of a directory that lies, at some depth, below one of the
/// directories it had to list: the descent to that directory and the place
/// in its listing are returned.
pub proof fn lemma_walk_finds_nothing_else(
    listing: spec_fn(Seq<char>) -> Seq<ItemView>,
    pending: Seq<DirView>,
    limit: nat,
    turns: nat,
    j: int,
) -> (origin: (Seq<DirView>, int))
    requires
        walk(listing, pending, limit, turns) is Some,
        0 <= j < walk(listing, pending, limit, turns)->0.len(),
    ensures
        is_descent(listing, origin.0),
        pending.contains(origin.0[0]),
        0 <= origin.1 < listing(origin.0.last().relative).len(),
        found_of(origin.0.last(), listing(origin.0.last().relative)[origin.1]) == Some(
            walk(listing, pending, limit, turns)->0[j],
        ),
    decreases turns,
{
    let dir = pending.last();
    let items = listing(dir.relative);
    let subdirectories = subdirectories_in(dir, items);
    let rest = pending.drop_last() + subdirectories;
    let here = found_in(dir, items);
    let found = walk(listing, pending, limit, turns)->0;
    if j < here.len() {
        assert(here.contains(here[j]));
        items.lemma_filter_map_contains(|item: ItemView| found_of(dir, item), here[j]);
        let item = choose|item: ItemView|
            #[trigger] items.contains(item) && found_of(dir, item) == Some(here[j]);
        let k = choose|k: int| 0 <= k < items.len() && items[k] == item;
        (seq![dir], k)
    } else {
        let (descent, k) = lemma_walk_finds_nothing_else(
            listing,
            rest,
            limit,
            (turns - 1) as nat,
            j - here.len(),
        );
        let first = descent[0];
        let at = choose|at: int| 0 <= at < rest.len() && rest[at] == first;
        if at < pending.len() - 1 {
            assert(pending[at] == first);
            (descent, k)
        } else {
            assert(subdirectories[at - (pending.len() - 1)] == first);
            assert(subdirectories.contains(first));
            items.lemma_filter_map_contains(|item: ItemView| subdirectory_of(dir, item), first);
            let item = choose|item: ItemView|
                #[trigger] items.contains(item) && subdirectory_of(dir, item) == Some(first);
            let i = choose|i: int| 0 <= i < items.len() && items[i] == item;
            assert(subdirectory_of(dir, items[i]) == Some(first));
            assert(is_child(listing, dir, first));
            let longer = seq![dir] + descent;
            assert forall|n: int| 0 <= n < longer.len() - 1 implies is_child(
                listing,
                #[trigger] longer[n],
                longer[n + 1],
            ) by {
                if n > 0 {
                    assert(is_child(listing, descent[n - 1], descent[n - 1 + 1]));
                }
            }
            assert(longer.last() == descent.last());
            (longer, k)
        }
    }
}

/// A walk from the root that comes to its end has found the entry of
/// every file and directory in the listing of every directory of the
/// tree: of the last of every descent that starts at the root.
pub proof fn lemma_whole_walk_finds_everything(
    listing: spec_fn(Seq<char>) -> Seq<ItemView>,
    limit: nat,
    turns: nat,
    descent: Seq<DirView>,
    k: int,
)
    requires
        walk(listing, seq![DirView { relative: Seq::empty(), depth: 0 }], limit, turns) is Some,
        is_descent(listing, descent),
        descent[0] == (DirView { relative: Seq::empty(), depth: 0 }),
        0 <= k < listing(descent.last().relative).len(),
        found_of(descent.last(), listing(descent.last().relative)[k]) is Some,
    ensures
        walk(
            listing,
            seq![DirView { relative: Seq::empty(), depth: 0 }],
            limit,
            turns,
        )->0.contains(found_of(descent.last(), listing(descent.last().relative)[k])->0),
{
    let root = DirView { relative: Seq::empty(), depth: 0 };
    assert(seq![root][0] == root);
    lemma_walk_finds_everything(listing, seq![root], limit, turns, descent, k);
}

} // verus!

//! The decisions of a walk over a directory tree that is to be packed.
//!
//! The walker never touches the file system. It hands out, one at a time,
//! the relative path of a directory to list; the caller lists it and hands
//! the listing back; the walker answers with the entries to add to the
//! archive and remembers the subdirectories still to be listed. Pending
//! directories are kept on a stack, so the depth of the tree costs memory
//! but no recursion, and a tree deeper than the walker's limit is refused.
//! Whatever is neither a regular file nor a directory, a symbolic link
//! above all, is passed over.

use crate::path::{
    child_path, is_clean_relative, is_entry_name, is_plain, is_plain_name, join_child,
    lemma_child_path_is_clean,
};
use vstd::prelude::*;

verus! {

/// A depth that no sensible data directory reaches.
pub const DEFAULT_MAX_DEPTH: usize = 64;

/// What a directory listing says an item is.
#[derive(Clone, Copy, Debug, PartialEq, Eq, Structural)]
pub enum ItemKind {
    /// A regular file.
    File,
    /// A directory.
    Directory,
    /// Anything else: a symbolic link, a device, a socket.
    Other,
}

/// One item of a directory listing.
#[derive(Debug, PartialEq, Eq)]
pub struct ListedItem {
    pub name: String,
    pub kind: ItemKind,
}

/// A listed item as plain values.
pub struct ItemView {
    pub name: Seq<char>,
    pub kind: ItemKind,
}

impl View for ListedItem {
    type V = ItemView;

    open spec fn view(&self) -> ItemView {
        ItemView { name: self.name@, kind: self.kind }
    }
}

/// The views of a listing.
pub open spec fn item_views(items: Seq<ListedItem>) -> Seq<ItemView> {
    items.map_values(|i: ListedItem| i@)
}

/// A directory of the tree: its path relative to the root of the walk,
/// empty for the root itself, and its depth below the root.
pub struct DirView {
    pub relative: Seq<char>,
    pub depth: nat,
}

struct PendingDir {
    relative: String,
    depth: usize,
}

impl View for PendingDir {
    type V = DirView;

    closed spec fn view(&self) -> DirView {
        DirView { relative: self.relative@, depth: self.depth as nat }
    }
}

/// An entry to add to the archive, by the name it takes there.
#[derive(Debug, PartialEq, Eq)]
pub enum Found {
    /// A regular file; `name` is also its path below the root of the walk.
    File { name: String },
    /// A directory; `name` is its path below the root of the walk with a
    /// `/` at its end.
    Directory { name: String },
}

/// A found entry as plain values.
pub enum FoundView {
    File { name: Seq<char> },
    Directory { name: Seq<char> },
}

impl FoundView {
    /// The name that the entry takes in the archive.
    pub open spec fn name(self) -> Seq<char> {
        match self {
            FoundView::File { name } => name,
            FoundView::Directory { name } => name,
        }
    }
}

impl View for Found {
    type V = FoundView;

    open spec fn view(&self) -> FoundView {
        match self {
            Found::File { name } => FoundView::File { name: name@ },
            Found::Directory { name } => FoundView::Directory { name: name@ },
        }
    }
}

impl Found {
    /// The name that the entry takes in the archive.
    pub fn name(&self) -> (name: &String)
        ensures
            name@ == self@.name(),
    {
        match self {
            Found::File { name } => name,
            Found::Directory { name } => name,
        }
    }
}

/// The views of a list of found entries.
pub open spec fn found_views(found: Seq<Found>) -> Seq<FoundView> {
    found.map_values(|f: Found| f@)
}

/// Why a listing was refused.
#[derive(Clone, Copy, Debug, PartialEq, Eq, Structural)]
pub enum WalkError {
    /// The name of the item at this index is not the name of one file or
    /// directory.
    InvalidName { index: usize },
    /// The item at this index is a directory that lies deeper than the
    /// walker's limit.
    DepthExceeded { index: usize },
    /// No directory has been handed out whose listing this could be.
    NoDirectory,
}

/// What is wrong with the item at `index` of the listing of `dir`, if
/// anything. An item that is neither file nor directory is passed over,
/// whatever its name.
pub open spec fn item_fault(dir: DirView, limit: nat, item: ItemView, index: usize) -> Option<
    WalkError,
> {
    if item.kind is Other {
        None
    } else if !is_plain_name(item.name) {
        Some(WalkError::InvalidName { index })
    } else if item.kind is Directory && dir.depth >= limit {
        Some(WalkError::DepthExceeded { index })
    } else {
        None
    }
}

/// The entry that an item of the listing of `dir` adds to the archive.
pub open spec fn found_of(dir: DirView, item: ItemView) -> Option<FoundView> {
    match item.kind {
        ItemKind::File => Some(FoundView::File { name: child_path(dir.relative, item.name) }),
        ItemKind::Directory => Some(
            FoundView::Directory { name: child_path(dir.relative, item.name).push('/') },
        ),
        ItemKind::Other => None,
    }
}

/// The directory that an item of the listing of `dir` leaves to be listed.
pub open spec fn subdirectory_of(dir: DirView, item: ItemView) -> Option<DirView> {
    match item.kind {
        ItemKind::Directory => Some(
            DirView { relative: child_path(dir.relative, item.name), depth: dir.depth + 1 },
        ),
        _ => None,
    }
}

/// The entries that the listing of `dir` adds to the archive, in the order
/// of the listing.
pub open spec fn found_in(dir: DirView, items: Seq<ItemView>) -> Seq<FoundView> {
    items.filter_map(|item: ItemView| found_of(dir, item))
}

/// The directories that the listing of `dir` leaves to be listed, in the
/// order of the listing.
pub open spec fn subdirectories_in(dir: DirView, items: Seq<ItemView>) -> Seq<DirView> {
    items.filter_map(|item: ItemView| subdirectory_of(dir, item))
}

/// Whether nothing is wrong with the first `n` items of the listing.
pub open spec fn items_fit(dir: DirView, limit: nat, items: Seq<ItemView>, n: int) -> bool {
    forall|k: int| 0 <= k < n ==> (#[trigger] item_fault(dir, limit, items[k], k as usize)) is None
}

/// Whether `e` is what is wrong with the first item that something is
/// wrong with.
pub open spec fn is_first_item_fault(
    dir: DirView,
    limit: nat,
    items: Seq<ItemView>,
    e: WalkError,
) -> bool {
    exists|k: int|
        0 <= k < items.len() && items_fit(dir, limit, items, k) && #[trigger] item_fault(
            dir,
            limit,
            items[k],
            k as usize,
        ) == Some(e)
}

/// Whether every one of `found` has a name that packing accepts.
pub open spec fn all_entry_names(found: Seq<FoundView>) -> bool {
    forall|k: int| 0 <= k < found.len() ==> is_entry_name((#[trigger] found[k]).name())
}

/// Whether a directory is one that a walker with this limit may hold: it
/// is the root or has a clean relative path, and lies within the limit.
pub open spec fn is_walkable(dir: DirView, limit: nat) -> bool {
    &&& dir.relative.len() == 0 || is_clean_relative(dir.relative)
    &&& dir.depth <= limit
}

/// The state of a walk: the directories still to be listed, the one whose
/// listing is awaited, and the greatest depth allowed.
pub struct TreeWalker {
    pending: Vec<PendingDir>,
    current: Option<PendingDir>,
    max_depth: usize,
}

impl TreeWalker {
    #[verifier::type_invariant]
    spec fn holds_walkable_directories(&self) -> bool {
        &&& forall|k: int|
            0 <= k < self.pending@.len() ==> is_walkable(
                (#[trigger] self.pending@[k])@,
                self.max_depth as nat,
            )
        &&& self.current matches Some(dir) ==> is_walkable(dir@, self.max_depth as nat)
    }

    /// The directories still to be listed; the next one to be handed out is
    /// the last.
    pub closed spec fn pending(&self) -> Seq<DirView> {
        self.pending@.map_values(|d: PendingDir| d@)
    }

    /// The directory whose listing is awaited.
    pub closed spec fn current(&self) -> Option<DirView> {
        match self.current {
            Some(dir) => Some(dir@),
            None => None,
        }
    }

    /// The greatest depth at which a directory may lie; the root lies at 0.
    pub closed spec fn limit(&self) -> nat {
        self.max_depth as nat
    }

    /// A walk that has the root still to list and refuses directories
    /// deeper than `max_depth`.
    pub fn new(max_depth: usize) -> (walker: TreeWalker)
        ensures
            walker.pending() == seq![DirView { relative: Seq::empty(), depth: 0 }],
            walker.current() is None,
            walker.limit() == max_depth,
    {
        let mut pending: Vec<PendingDir> = Vec::new();
        pending.push(PendingDir { relative: String::new(), depth: 0 });
        let walker = TreeWalker { pending, current: None, max_depth };
        assert(walker.pending() =~= seq![DirView { relative: Seq::empty(), depth: 0 }]);
        walker
    }

    /// Hands out the next directory to list, by its path relative to the
    /// root of the walk; the root's own is empty. Every directory handed
    /// out is the root or has a clean relative path, and lies within the
    /// walker's limit. `None` when nothing is left: the walk is over.
    pub fn advance(&mut self) -> (r: Option<String>)
        ensures
            final(self).limit() == old(self).limit(),
            match r {
                Some(relative) => {
                    &&& old(self).pending().len() > 0
                    &&& relative@ == old(self).pending().last().relative
                    &&& final(self).current() == Some(old(self).pending().last())
                    &&& final(self).pending() == old(self).pending().drop_last()
                    &&& is_walkable(old(self).pending().last(), old(self).limit())
                },
                None => {
                    &&& old(self).pending().len() == 0
                    &&& final(self).current() is None
                    &&& final(self).pending() == old(self).pending()
                },
            },
    {
        proof {
            use_type_invariant(&*self);
        }
        let ghost before = self.pending@;
        let mut pending: Vec<PendingDir> = Vec::new();
        core::mem::swap(&mut self.pending, &mut pending);
        let next = pending.pop();
        core::mem::swap(&mut self.pending, &mut pending);
        match next {
            Some(dir) => {
                let relative = dir.relative.clone();
                assert(is_walkable(before[before.len() - 1]@, self.max_depth as nat));
                self.current = Some(dir);
                assert(self.pending() =~= old(self).pending().drop_last());
                Some(relative)
            },
            None => {
                self.current = None;
                None
            },
        }
    }

    /// Takes the listing of the directory handed out last and answers with
    /// the entries that it adds to the archive, in the listing's order. Its
    /// subdirectories join the directories still to be listed.
    ///
    /// The listing is refused as a whole, and the walker left as it was, if
    /// one of its files or directories has a name that is not the name of
    /// one file or directory, or if it holds a directory although the
    /// listed directory already lies at the walker's limit. It is refused
    /// too if no directory has been handed out since the last listing was
    /// taken.
    pub fn record(&mut self, listing: &Vec<ListedItem>) -> (r: Result<Vec<Found>, WalkError>)
        ensures
            final(self).limit() == old(self).limit(),
            match r {
                Ok(found) => {
                    &&& old(self).current() matches Some(dir)
                    &&& items_fit(
                        dir,
                        old(self).limit(),
                        item_views(listing@),
                        listing@.len() as int,
                    )
                    &&& found_views(found@) == found_in(dir, item_views(listing@))
                    &&& final(self).pending() == old(self).pending() + subdirectories_in(
                        dir,
                        item_views(listing@),
                    )
                    &&& final(self).current() is None
                    &&& all_entry_names(found_views(found@))
                },
                Err(e) => {
                    &&& final(self).pending() == old(self).pending()
                    &&& final(self).current() == old(self).current()
                    &&& match old(self).current() {
                        None => e == WalkError::NoDirectory,
                        Some(dir) => is_first_item_fault(
                            dir,
                            old(self).limit(),
                            item_views(listing@),
                            e,
                        ),
                    }
                },
            },
    {
        proof {
            use_type_invariant(&*self);
        }
        let (base, depth) = match &self.current {
            None => {
                return Err(WalkError::NoDirectory);
            },
            Some(dir) => (dir.relative.clone(), dir.depth),
        };
        let ghost dir = self.current->0@;
        let ghost limit = self.max_depth as nat;
        let ghost items = item_views(listing@);
        let ghost to_found = |item: ItemView| found_of(dir, item);
        let ghost to_subdirectory = |item: ItemView| subdirectory_of(dir, item);
        let max_depth = self.max_depth;
        let mut found: Vec<Found> = Vec::new();
        let mut subdirectories: Vec<PendingDir> = Vec::new();
        let mut i: usize = 0;
        proof {
            assert(items.take(0) =~= Seq::<ItemView>::empty());
            assert(found_views(found@) =~= items.take(0).filter_map(to_found));
            assert(subdirectories@.map_values(|d: PendingDir| d@) =~= items.take(0).filter_map(
                to_subdirectory,
            ));
        }
        while i < listing.len()
            invariant
                i <= listing.len(),
                self.pending() == old(self).pending(),
                self.current() == old(self).current(),
                self.limit() == old(self).limit(),
                old(self).current() == Some(dir),
                old(self).limit() == limit,
                items == item_views(listing@),
                dir == (DirView { relative: base@, depth: depth as nat }),
                limit == max_depth as nat,
                is_walkable(dir, limit),
                to_found == (|item: ItemView| found_of(dir, item)),
                to_subdirectory == (|item: ItemView| subdirectory_of(dir, item)),
                items_fit(dir, limit, items, i as int),
                found_views(found@) == items.take(i as int).filter_map(to_found),
                subdirectories@.map_values(|d: PendingDir| d@) == items.take(i as int).filter_map(
                    to_subdirectory,
                ),
                all_entry_names(found_views(found@)),
                forall|k: int|
                    0 <= k < subdirectories@.len() ==> is_walkable(
                        (#[trigger] subdirectories@[k])@,
                        limit,
                    ),
            decreases listing.len() - i,
        {
            let item = &listing[i];
            let ghost found_before = found@;
            let ghost subdirectories_before = subdirectories@;
            proof {
                assert(items[i as int] == item@);
                items.lemma_filter_map_take_succ(to_found, i as int);
                items.lemma_filter_map_take_succ(to_subdirectory, i as int);
            }
            match item.kind {
                ItemKind::Other => {},
                ItemKind::File => {
                    if !is_plain(item.name.as_str()) {
                        proof {
                            let k = i as int;
                            assert(items_fit(dir, limit, items, k) && item_fault(
                                dir,
                                limit,
                                items[k],
                                k as usize,
                            ) == Some(WalkError::InvalidName { index: i }));
                        }
                        return Err(WalkError::InvalidName { index: i });
                    }
                    let name = join_child(base.as_str(), item.name.as_str());
                    proof {
                        lemma_child_path_is_clean(base@, item.name@);
                    }
                    found.push(Found::File { name });
                    proof {
                        assert(found_views(found@) =~= found_views(found_before).push(
                            found@.last()@,
                        ));
                    }
                },
                ItemKind::Directory => {
                    if !is_plain(item.name.as_str()) {
                        proof {
                            let k = i as int;
                            assert(items_fit(dir, limit, items, k) && item_fault(
                                dir,
                                limit,
                                items[k],
                                k as usize,
                            ) == Some(WalkError::InvalidName { index: i }));
                        }
                        return Err(WalkError::InvalidName { index: i });
                    }
                    if depth >= max_depth {
                        proof {
                            let k = i as int;
                            assert(items_fit(dir, limit, items, k) && item_fault(
                                dir,
                                limit,
                                items[k],
                                k as usize,
                            ) == Some(WalkError::DepthExceeded { index: i }));
                        }
                        return Err(WalkError::DepthExceeded { index: i });
                    }
                    let relative = join_child(base.as_str(), item.name.as_str());
                    let mut name = relative.clone();
                    proof {
                        lemma_child_path_is_clean(base@, item.name@);
                        reveal_strlit("/");
                        assert("/"@ =~= seq!['/']);
                        assert(relative@ + seq!['/'] =~= relative@.push('/'));
                        assert(relative@.push('/').drop_last() =~= relative@);
                    }
                    name.append("/");
                    found.push(Found::Directory { name });
                    subdirectories.push(PendingDir { relative, depth: depth + 1 });
                    proof {
                        assert(found_views(found@) =~= found_views(found_before).push(
                            found@.last()@,
                        ));
                        assert(subdirectories@.map_values(|d: PendingDir| d@)
                            =~= subdirectories_before.map_values(|d: PendingDir| d@).push(
                            subdirectories@.last()@,
                        ));
                    }
                },
            }
            i += 1;
        }
        proof {
            assert(items.take(listing@.len() as int) =~= items);
        }
        let ghost pending_before = self.pending@;
        let ghost added = subdirectories@;
        let mut pending: Vec<PendingDir> = Vec::new();
        core::mem::swap(&mut self.pending, &mut pending);
        pending.append(&mut subdirectories);
        core::mem::swap(&mut self.pending, &mut pending);
        self.current = None;
        proof {
            assert(self.pending@ =~= pending_before + added);
            assert(self.pending() =~= old(self).pending() + subdirectories_in(dir, items));
        }
        Ok(found)
    }

    /// Whether the walk is over: nothing is left to list and no listing is
    /// awaited.
    pub fn is_finished(&self) -> (r: bool)
        ensures
            r == (self.pending().len() == 0 && self.current() is None),
    {
        self.pending.len() == 0 && self.current.is_none()
    }
}

} // verus!

//! Walking the source tree.
//!
//! The walk keeps the directories that are still to be listed. The caller
//! lists a directory, shows each entry to the walk, and is told what to do
//! with it. The destination root and the directory for files without a date
//! are never entered, so that a destination inside the source is not sorted
//! into itself.

use crate::paths::{is_same_path, same_path};
use vstd::prelude::*;

verus! {

/// What an entry of a directory is.
#[derive(Clone, Copy, Debug, PartialEq, Eq, Structural)]
pub enum EntryKind {
    /// A directory.
    Directory,
    /// A file.
    File,
    /// Neither, such as a link that leads nowhere.
    Other,
}

/// What to do with an entry.
#[derive(Clone, Copy, Debug, PartialEq, Eq, Structural)]
pub enum EntryAction {
    /// List it later: it is a directory of the source tree.
    Descend,
    /// Sort it: it is a file.
    Process,
    /// Leave it alone.
    Skip,
}

/// The kind of an entry, by what the filesystem says of its path. An entry
/// that is a directory counts as one, whatever else is said of it.
pub open spec fn kind_of(is_dir: bool, is_file: bool) -> EntryKind {
    if is_dir {
        EntryKind::Directory
    } else if is_file {
        EntryKind::File
    } else {
        EntryKind::Other
    }
}

/// Whether `path` is one of the two directories that are never entered,
/// however it is written.
pub open spec fn is_excluded(path: Seq<char>, dest_root: Seq<char>, no_date_root: Seq<char>) -> bool {
    same_path(path, dest_root) || same_path(path, no_date_root)
}

/// What to do with an entry: a file is sorted, a directory is entered unless
/// it is excluded, anything else is left alone.
pub open spec fn entry_action(
    kind: EntryKind,
    path: Seq<char>,
    dest_root: Seq<char>,
    no_date_root: Seq<char>,
) -> EntryAction {
    match kind {
        EntryKind::Directory => if is_excluded(path, dest_root, no_date_root) {
            EntryAction::Skip
        } else {
            EntryAction::Descend
        },
        EntryKind::File => EntryAction::Process,
        EntryKind::Other => EntryAction::Skip,
    }
}

impl EntryKind {
    /// The kind of an entry, by what the filesystem says of its path.
    pub fn classify(is_dir: bool, is_file: bool) -> (kind: EntryKind)
        ensures
            kind == kind_of(is_dir, is_file),
    {
        if is_dir {
            EntryKind::Directory
        } else if is_file {
            EntryKind::File
        } else {
            EntryKind::Other
        }
    }
}

/// What a [`Traverser`] holds.
pub struct TraverserView {
    pub dest_root: Seq<char>,
    pub no_date_root: Seq<char>,
    /// The directories still to be listed. The last one is listed next.
    pub pending: Seq<Seq<char>>,
}

impl TraverserView {
    /// None of the directories still to be listed is excluded.
    pub open spec fn avoids_destination(self) -> bool {
        forall|i: int|
            0 <= i < self.pending.len() ==> !is_excluded(
                #[trigger] self.pending[i],
                self.dest_root,
                self.no_date_root,
            )
    }
}

impl TraverserView {
    /// What the walk holds after it was shown an entry: a directory that is
    /// to be entered is kept, and nothing else changes.
    pub open spec fn after_visit(self, kind: EntryKind, path: Seq<char>) -> TraverserView {
        if entry_action(kind, path, self.dest_root, self.no_date_root) == EntryAction::Descend {
            TraverserView {
                dest_root: self.dest_root,
                no_date_root: self.no_date_root,
                pending: self.pending.push(path),
            }
        } else {
            self
        }
    }
}

/// The walk never comes to enter the destination root or the directory for
/// files without a date: whatever entry it is shown, none of the directories
/// it then keeps is one of the two.
pub proof fn lemma_walk_avoids_destination(walk: TraverserView, kind: EntryKind, path: Seq<char>)
    requires
        walk.avoids_destination(),
    ensures
        walk.after_visit(kind, path).avoids_destination(),
        is_excluded(path, walk.dest_root, walk.no_date_root) ==> walk.after_visit(kind, path)
            == walk,
{
    let after = walk.after_visit(kind, path);
    assert forall|i: int| 0 <= i < after.pending.len() implies !is_excluded(
        #[trigger] after.pending[i],
        after.dest_root,
        after.no_date_root,
    ) by {
        if i < walk.pending.len() {
            assert(after.pending[i] == walk.pending[i]);
        }
    }
}

/// A walk through the source tree.
pub struct Traverser {
    dest_root: String,
    no_date_root: String,
    pending: Vec<String>,
}

impl View for Traverser {
    type V = TraverserView;

    closed spec fn view(&self) -> TraverserView {
        TraverserView {
            dest_root: self.dest_root@,
            no_date_root: self.no_date_root@,
            pending: self.pending@.map_values(|path: String| path@),
        }
    }
}

impl Traverser {
    #[verifier::type_invariant]
    closed spec fn well_formed(self) -> bool {
        self@.avoids_destination()
    }

    /// A walk that will enter neither `dest_root` nor `no_date_root`. No
    /// directory is waiting yet: the caller lists the source directory itself
    /// and shows its entries to [`Traverser::visit`].
    pub fn new(dest_root: &str, no_date_root: &str) -> (walk: Traverser)
        ensures
            walk@.dest_root == dest_root@,
            walk@.no_date_root == no_date_root@,
            walk@.pending == Seq::<Seq<char>>::empty(),
    {
        let walk = Traverser {
            dest_root: dest_root.to_owned(),
            no_date_root: no_date_root.to_owned(),
            pending: Vec::new(),
        };
        assert(walk@.pending =~= Seq::<Seq<char>>::empty());
        walk
    }

    /// Says what to do with an entry of the directory being listed, and keeps
    /// a directory that is to be entered for later.
    pub fn visit(&mut self, kind: EntryKind, path: &str) -> (action: EntryAction)
        ensures
            action == entry_action(kind, path@, old(self)@.dest_root, old(self)@.no_date_root),
            final(self)@ == old(self)@.after_visit(kind, path@),
            final(self)@.avoids_destination(),
    {
        proof {
            use_type_invariant(&*self);
        }
        match kind {
            EntryKind::Directory => {
                let entry: String = path.to_owned();
                if is_same_path(path, self.dest_root.as_str()) || is_same_path(
                    path,
                    self.no_date_root.as_str(),
                ) {
                    EntryAction::Skip
                } else {
                    let mut pending: Vec<String> = Vec::new();
                    std::mem::swap(&mut self.pending, &mut pending);
                    pending.push(entry);
                    proof {
                        let kept = pending@.map_values(|path: String| path@);
                        assert(kept =~= old(self)@.pending.push(path@));
                        assert forall|i: int| 0 <= i < kept.len() implies !is_excluded(
                            #[trigger] kept[i],
                            self.dest_root@,
                            self.no_date_root@,
                        ) by {
                            if i < old(self)@.pending.len() {
                                assert(kept[i] == old(self)@.pending[i]);
                            }
                        }
                    }
                    std::mem::swap(&mut self.pending, &mut pending);
                    EntryAction::Descend
                }
            },
            EntryKind::File => EntryAction::Process,
            EntryKind::Other => EntryAction::Skip,
        }
    }

    /// The directory to list next, if one is waiting. It is the one that was
    /// kept last, and it is not excluded.
    pub fn next_directory(&mut self) -> (next: Option<String>)
        ensures
            final(self)@.dest_root == old(self)@.dest_root,
            final(self)@.no_date_root == old(self)@.no_date_root,
            next is Some <==> old(self)@.pending.len() > 0,
            next matches Some(path) ==> path@ == old(self)@.pending.last() && final(self)@.pending
                == old(self)@.pending.drop_last() && !is_excluded(
                path@,
                old(self)@.dest_root,
                old(self)@.no_date_root,
            ),
            next is None ==> final(self)@.pending == old(self)@.pending,
            final(self)@.avoids_destination(),
    {
        proof {
            use_type_invariant(&*self);
        }
        let mut pending: Vec<String> = Vec::new();
        std::mem::swap(&mut self.pending, &mut pending);
        let next = pending.pop();
        proof {
            let kept = pending@.map_values(|path: String| path@);
            if next is Some {
                assert(kept =~= old(self)@.pending.drop_last());
                assert(next->0@ == old(self)@.pending[old(self)@.pending.len() - 1]);
            } else {
                assert(kept =~= old(self)@.pending);
            }
            assert forall|i: int| 0 <= i < kept.len() implies !is_excluded(
                #[trigger] kept[i],
                self.dest_root@,
                self.no_date_root@,
            ) by {
                assert(kept[i] == old(self)@.pending[i]);
            }
        }
        std::mem::swap(&mut self.pending, &mut pending);
        next
    }

    /// How many directories are waiting to be listed.
    pub fn pending_count(&self) -> (count: usize)
        ensures
            count == self@.pending.len(),
    {
        self.pending.len()
    }
}

} // verus!

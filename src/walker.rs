use vstd::prelude::*;

verus! {

/// What a directory entry is, as seen without following symbolic links.
#[derive(Clone, Copy, Debug, PartialEq, Eq, Structural)]
pub enum EntryKind {
    File,
    Directory,
    Symlink,
    Other,
}

/// One entry of a directory listing.
pub struct DirEntry {
    pub path: String,
    pub kind: EntryKind,
}

impl DirEntry {
    pub fn new(path: String, kind: EntryKind) -> (r: DirEntry)
        ensures
            r.path == path,
            r.kind == kind,
    {
        DirEntry { path, kind }
    }
}

/// The paths of the regular files among `entries`, in order.
pub open spec fn file_paths(entries: Seq<DirEntry>) -> Seq<String>
    decreases entries.len(),
{
    if entries.len() == 0 {
        seq![]
    } else {
        let rest = file_paths(entries.drop_last());
        if entries.last().kind == EntryKind::File {
            rest.push(entries.last().path)
        } else {
            rest
        }
    }
}

/// The paths of the directories among `entries`, in order.
pub open spec fn directory_paths(entries: Seq<DirEntry>) -> Seq<String>
    decreases entries.len(),
{
    if entries.len() == 0 {
        seq![]
    } else {
        let rest = directory_paths(entries.drop_last());
        if entries.last().kind == EntryKind::Directory {
            rest.push(entries.last().path)
        } else {
            rest
        }
    }
}

/// A walk over a directory tree, fed one directory listing at a time.
///
/// The walk hands out the directories still to be listed; the caller lists
/// each and hands the listing back. Regular files are collected, directories
/// are queued to be listed in turn, and symbolic links (to files or to
/// directories) and other entries are passed over, so the walk never leaves
/// the tree and never loops. A directory that cannot be listed is dropped
/// with everything below it.
pub struct TreeWalk {
    pending: Vec<String>,
    files: Vec<String>,
    seen: Ghost<Seq<DirEntry>>,
}

impl TreeWalk {
    /// The directories still to be listed; the last is listed next.
    pub closed spec fn pending(&self) -> Seq<String> {
        self.pending@
    }

    /// The regular files collected so far.
    pub closed spec fn found(&self) -> Seq<String> {
        self.files@
    }

    /// Every entry of every listing handed back so far, in order.
    pub closed spec fn seen(&self) -> Seq<DirEntry> {
        self.seen@
    }

    /// The files collected are exactly the regular files among the entries
    /// seen.
    pub closed spec fn wf(&self) -> bool {
        self.files@ == file_paths(self.seen@)
    }

    /// A walk that starts at `root`.
    pub fn new(root: String) -> (r: TreeWalk)
        ensures
            r.wf(),
            r.pending() == seq![root],
            r.found() == Seq::<String>::empty(),
            r.seen() == Seq::<DirEntry>::empty(),
    {
        let mut pending: Vec<String> = Vec::new();
        pending.push(root);
        TreeWalk { pending, files: Vec::new(), seen: Ghost(Seq::empty()) }
    }

    /// Whether no directory is left to list.
    pub fn is_done(&self) -> (r: bool)
        ensures
            r == (self.pending().len() == 0),
    {
        self.pending.len() == 0
    }

    /// The next directory to list, taken off the pending ones; `None` once
    /// the walk is done.
    pub fn next_directory(&mut self) -> (r: Option<String>)
        requires
            old(self).wf(),
        ensures
            final(self).wf(),
            old(self).pending().len() == 0 ==> r is None && final(self).pending() == old(
                self,
            ).pending(),
            old(self).pending().len() > 0 ==> r == Some(old(self).pending().last())
                && final(self).pending() == old(self).pending().drop_last(),
            final(self).found() == old(self).found(),
            final(self).seen() == old(self).seen(),
    {
        self.pending.pop()
    }

    /// Takes in the listing of a directory: its regular files are
    /// collected and its directories queued; symbolic links and other
    /// entries are passed over. `None`, a directory that could not be
    /// listed, changes nothing.
    pub fn record_listing(&mut self, listing: Option<Vec<DirEntry>>)
        requires
            old(self).wf(),
        ensures
            final(self).wf(),
            listing is None ==> *final(self) == *old(self),
            listing matches Some(es) ==> {
                &&& final(self).found() == old(self).found() + file_paths(es@)
                &&& final(self).pending() == old(self).pending() + directory_paths(es@)
                &&& final(self).seen() == old(self).seen() + es@
            },
    {
        let entries = match listing {
            Some(es) => es,
            None => return,
        };
        let ghost files0 = self.files@;
        let ghost pending0 = self.pending@;
        let ghost seen0 = self.seen@;
        let ghost all = entries@;
        for i in 0..entries.len()
            invariant
                all == entries@,
                self.files@ == files0 + file_paths(all.take(i as int)),
                self.pending@ == pending0 + directory_paths(all.take(i as int)),
        {
            proof {
                assert(all.take(i + 1).drop_last() == all.take(i as int));
            }
            match entries[i].kind {
                EntryKind::File => {
                    self.files.push(entries[i].path.clone());
                },
                EntryKind::Directory => {
                    self.pending.push(entries[i].path.clone());
                },
                _ => {},
            }
        }
        assert(all.take(all.len() as int) == all);
        proof {
            lemma_file_paths_append(seen0, all);
            self.seen = Ghost(seen0 + all);
        }
    }
}

proof fn lemma_file_paths_append(a: Seq<DirEntry>, b: Seq<DirEntry>)
    ensures
        file_paths(a + b) == file_paths(a) + file_paths(b),
    decreases b.len(),
{
    if b.len() == 0 {
        assert(a + b == a);
        assert(file_paths(b) =~= seq![]);
        assert(file_paths(a) + file_paths(b) =~= file_paths(a));
    } else {
        lemma_file_paths_append(a, b.drop_last());
        assert((a + b).drop_last() == a + b.drop_last());
        assert((a + b).last() == b.last());
    }
}

/// The regular files that the walk has found: with a walk that is done,
/// every regular file of the tree that could be listed.
pub fn all_files(walk: TreeWalk) -> (r: Vec<String>)
    requires
        walk.wf(),
    ensures
        r@ == file_paths(walk.seen()),
{
    walk.files
}

/// Every path that the walk returns is the path of an entry that was listed
/// as a regular file: never a symbolic link, never a directory.
pub proof fn lemma_walk_returns_regular_files(entries: Seq<DirEntry>, i: int)
    requires
        0 <= i < file_paths(entries).len(),
    ensures
        exists|j: int|
            0 <= j < entries.len() && (#[trigger] entries[j]).path == file_paths(entries)[i]
                && entries[j].kind == EntryKind::File && entries[j].kind != EntryKind::Symlink
                && entries[j].kind != EntryKind::Directory,
    decreases entries.len(),
{
    let rest = file_paths(entries.drop_last());
    if i < rest.len() {
        lemma_walk_returns_regular_files(entries.drop_last(), i);
        let j = choose|j: int|
            0 <= j < entries.drop_last().len() && (#[trigger] entries.drop_last()[j]).path
                == rest[i] && entries.drop_last()[j].kind == EntryKind::File;
        assert(entries[j] == entries.drop_last()[j]);
    } else {
        let j = entries.len() - 1;
        assert(entries[j] == entries.last());
    }
}

} // verus!

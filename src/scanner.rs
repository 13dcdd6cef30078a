//! The search for ignore files under a directory, with an explicit list of the
//! directories still to explore. Listing a directory is the caller's part: it
//! takes the next directory from the scanner, lists it, and hands each entry
//! back; a directory that cannot be listed is skipped.
use vstd::prelude::*;

use crate::lines::views;

verus! {

/// One entry of a listed directory, as the file system reported it.
pub struct DirEntryInfo {
    /// The entry's path: the listed directory's path joined with its name.
    pub path: String,
    /// The entry's own name, the last component of its path.
    pub file_name: String,
    pub is_dir: bool,
    pub is_file: bool,
}

/// What a directory entry is, in specifications.
pub struct EntryModel {
    pub path: Seq<char>,
    pub file_name: Seq<char>,
    pub is_dir: bool,
    pub is_file: bool,
}

impl View for DirEntryInfo {
    type V = EntryModel;

    open spec fn view(&self) -> EntryModel {
        EntryModel {
            path: self.path@,
            file_name: self.file_name@,
            is_dir: self.is_dir,
            is_file: self.is_file,
        }
    }
}

/// The name that an ignore file has.
pub open spec fn ignore_file_name() -> Seq<char> {
    seq!['.', 'g', 'i', 't', 'i', 'g', 'n', 'o', 'r', 'e']
}

/// An entry that is an ignore file: a file, not a directory, with that name.
pub open spec fn is_ignore_file(e: EntryModel) -> bool {
    !e.is_dir && e.is_file && e.file_name == ignore_file_name()
}

/// The paths of the ignore files among `entries`, in their order.
pub open spec fn ignore_paths(entries: Seq<EntryModel>) -> Seq<Seq<char>>
    decreases entries.len(),
{
    if entries.len() == 0 {
        Seq::empty()
    } else {
        let prev = ignore_paths(entries.drop_last());
        if is_ignore_file(entries.last()) {
            prev.push(entries.last().path)
        } else {
            prev
        }
    }
}

/// The state of a search: the directories still to explore, the entries seen so
/// far, and the ignore files found among them.
pub struct Scanner {
    pending: Vec<String>,
    found: Vec<String>,
    visited: Ghost<Seq<EntryModel>>,
}

impl Scanner {
    /// The directories still to explore; the last is explored next.
    pub closed spec fn pending(&self) -> Seq<Seq<char>> {
        views(self.pending@)
    }

    /// The paths of the ignore files found so far, in the order found.
    pub closed spec fn found(&self) -> Seq<Seq<char>> {
        views(self.found@)
    }

    /// The entries handed to the scanner so far, in order.
    pub closed spec fn visited(&self) -> Seq<EntryModel> {
        self.visited@
    }

    /// The files found are exactly the ignore files among the entries seen.
    pub closed spec fn wf(&self) -> bool {
        self.found() == ignore_paths(self.visited())
    }

    /// A search that starts at `root`.
    pub fn new(root: String) -> (r: Scanner)
        ensures
            r.wf(),
            r.pending() == seq![root@],
            r.found() == Seq::<Seq<char>>::empty(),
            r.visited() == Seq::<EntryModel>::empty(),
    {
        let mut pending: Vec<String> = Vec::new();
        pending.push(root);
        let r = Scanner { pending, found: Vec::new(), visited: Ghost(Seq::empty()) };
        assert(r.pending() =~= seq![root@]);
        assert(r.found() =~= Seq::<Seq<char>>::empty());
        r
    }

    /// The next directory to explore, taken off the list; `None` when the search
    /// is over.
    pub fn next_directory(&mut self) -> (r: Option<String>)
        requires
            old(self).wf(),
        ensures
            final(self).wf(),
            final(self).found() == old(self).found(),
            final(self).visited() == old(self).visited(),
            old(self).pending().len() == 0 ==> r is None && final(self).pending() == old(
                self,
            ).pending(),
            old(self).pending().len() > 0 ==> (r matches Some(d) && d@ == old(
                self,
            ).pending().last() && final(self).pending() == old(self).pending().drop_last()),
    {
        let ghost before = self.pending@;
        let r = self.pending.pop();
        proof {
            if before.len() > 0 {
                assert(views(self.pending@) =~= views(before).drop_last());
            }
        }
        r
    }

    /// Takes in one entry of the directory being explored: a directory joins the
    /// list to explore, an ignore file joins the files found.
    pub fn visit_entry(&mut self, entry: DirEntryInfo)
        requires
            old(self).wf(),
        ensures
            final(self).wf(),
            final(self).visited() == old(self).visited().push(entry@),
            final(self).pending() == (if entry@.is_dir {
                old(self).pending().push(entry@.path)
            } else {
                old(self).pending()
            }),
            final(self).found() == (if is_ignore_file(entry@) {
                old(self).found().push(entry@.path)
            } else {
                old(self).found()
            }),
    {
        let ghost e = entry@;
        let ghost old_visited = self.visited@;
        let ghost old_pending = self.pending@;
        let ghost old_found = self.found@;
        self.visited = Ghost(self.visited@.push(e));
        assert(self.visited@.drop_last() =~= old_visited);
        if entry.is_dir {
            self.pending.push(entry.path);
            assert(views(self.pending@) =~= views(old_pending).push(e.path));
        } else if entry.is_file && is_ignore_file_name(&entry.file_name) {
            self.found.push(entry.path);
            assert(views(self.found@) =~= views(old_found).push(e.path));
        }
    }

    /// The paths of the ignore files found.
    pub fn into_found(self) -> (r: Vec<String>)
        requires
            self.wf(),
        ensures
            views(r@) == self.found(),
            views(r@) == ignore_paths(self.visited()),
    {
        self.found
    }
}

/// Whether `name` is the name that an ignore file has.
pub fn is_ignore_file_name(name: &String) -> (r: bool)
    ensures
        r == (name@ == ignore_file_name()),
{
    proof {
        reveal_strlit(".gitignore");
    }
    let expected = String::from_str(".gitignore");
    assert(expected@ =~= ignore_file_name());
    *name == expected
}

/// The entries handed to a search, one after another, leave exactly one found
/// path for each ignore file among them, in their order, and nothing else.
pub proof fn lemma_discovery_complete(entries: Seq<EntryModel>)
    ensures
        ignore_paths(entries) == entries.filter(|e: EntryModel| is_ignore_file(e)).map_values(
            |e: EntryModel| e.path,
        ),
        ignore_paths(entries).len() == entries.filter(|e: EntryModel| is_ignore_file(e)).len(),
    decreases entries.len(),
{
    reveal(Seq::filter);
    if entries.len() > 0 {
        lemma_discovery_complete(entries.drop_last());
        let kept = entries.drop_last().filter(|e: EntryModel| is_ignore_file(e));
        if is_ignore_file(entries.last()) {
            assert(kept.push(entries.last()).map_values(|e: EntryModel| e.path) =~= kept.map_values(
                |e: EntryModel| e.path,
            ).push(entries.last().path));
        }
    }
}

/// An ignore file renamed to any other name is no longer found: the search
/// finds what it would find were that entry absent.
pub proof fn lemma_renamed_file_not_found(entries: Seq<EntryModel>, i: int, name: Seq<char>)
    requires
        0 <= i < entries.len(),
        name != ignore_file_name(),
    ensures
        ignore_paths(entries.update(i, EntryModel { file_name: name, ..entries[i] }))
            == ignore_paths(entries.remove(i)),
    decreases entries.len(),
{
    let renamed = entries.update(i, EntryModel { file_name: name, ..entries[i] });
    if i == entries.len() - 1 {
        assert(renamed.drop_last() =~= entries.remove(i));
    } else {
        lemma_renamed_file_not_found(entries.drop_last(), i, name);
        assert(renamed.drop_last() =~= entries.drop_last().update(
            i,
            EntryModel { file_name: name, ..entries[i] },
        ));
        assert(entries.remove(i).drop_last() =~= entries.drop_last().remove(i));
        assert(entries.remove(i).last() == entries.last());
    }
}

} // verus!

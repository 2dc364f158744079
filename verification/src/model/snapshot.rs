//! In-memory, path-ordered snapshots of a repository tree.
use vstd::prelude::*;

use std::collections::BTreeMap;

use crate::model::blob::Blob;
use crate::model::commit::CommitId;
use crate::model::mode::FileMode;
use crate::model::path::RepoPath;
use crate::text::{chars_lt, lemma_chars_lt_irreflexive, lemma_chars_lt_total, lemma_chars_lt_transitive};

verus! {

/// A file in a repository snapshot.
#[derive(Debug, PartialEq, Eq)]
pub struct FileEntry {
    /// Repository path of the file.
    pub path: RepoPath,
    /// File content.
    pub content: Blob,
    /// File mode.
    pub mode: FileMode,
}

impl Clone for FileEntry {
    fn clone(&self) -> (r: Self)
        ensures
            r.path@ == self.path@,
            r.content.bytes() == self.content.bytes(),
            r.mode == self.mode,
    {
        FileEntry { path: self.path.clone(), content: self.content.clone(), mode: self.mode }
    }
}

impl FileEntry {
    /// Creates a file entry.
    pub fn new(path: RepoPath, content: Blob, mode: FileMode) -> (r: FileEntry)
        ensures
            r.path == path,
            r.content == content,
            r.mode == mode,
    {
        FileEntry { path, content, mode }
    }

    /// Creates a regular (non-executable) file entry.
    pub fn regular(path: RepoPath, content: Blob) -> (r: FileEntry)
        ensures
            r.path == path,
            r.content == content,
            r.mode == FileMode::File,
    {
        FileEntry { path, content, mode: FileMode::File }
    }
}

/// Metadata about the repository a snapshot was taken from.
#[derive(Clone, Debug, PartialEq, Eq)]
pub struct RepositoryMetadata {
    /// The checked-out commit, if known.
    pub head: Option<CommitId>,
    /// The head commit's message, if known.
    pub head_message: Option<String>,
    /// Arbitrary user-defined key/value metadata.
    pub custom: BTreeMap<String, String>,
}

impl Default for RepositoryMetadata {
    fn default() -> (r: Self)
        ensures
            r.head is None,
            r.head_message is None,
            r.custom@.len() == 0,
    {
        RepositoryMetadata { head: None, head_message: None, custom: BTreeMap::new() }
    }
}

/// The entries are in strictly increasing path order (so paths are unique).
pub open spec fn sorted_entries(s: Seq<FileEntry>) -> bool {
    forall|i: int, j: int| 0 <= i < j < s.len() ==> chars_lt(#[trigger] s[i].path@, #[trigger] s[j].path@)
}

/// Some entry of `s` has path `p`.
pub open spec fn has_path(s: Seq<FileEntry>, p: Seq<char>) -> bool {
    exists|i: int| 0 <= i < s.len() && #[trigger] s[i].path@ == p
}

/// An index of `s` whose entry has path `p` (meaningful when there is one).
pub open spec fn index_of_path(s: Seq<FileEntry>, p: Seq<char>) -> int {
    choose|i: int| 0 <= i < s.len() && #[trigger] s[i].path@ == p
}

/// The entry of `s` at path `p`, if any.
pub open spec fn lookup_in(s: Seq<FileEntry>, p: Seq<char>) -> Option<FileEntry> {
    if has_path(s, p) {
        Some(s[index_of_path(s, p)])
    } else {
        None
    }
}

/// The last entry of `s` with path `p`, if any.
pub open spec fn last_with_path(s: Seq<FileEntry>, p: Seq<char>) -> Option<FileEntry>
    decreases s.len(),
{
    if s.len() == 0 {
        None
    } else if s.last().path@ == p {
        Some(s.last())
    } else {
        last_with_path(s.drop_last(), p)
    }
}

/// In a sorted sequence the entry at a path is the one at its index.
pub proof fn lemma_lookup_index(s: Seq<FileEntry>, i: int)
    requires
        sorted_entries(s),
        0 <= i < s.len(),
    ensures
        lookup_in(s, s[i].path@) == Some(s[i]),
{
    let p = s[i].path@;
    assert(has_path(s, p));
    let j = index_of_path(s, p);
    if j != i {
        lemma_chars_lt_irreflexive(p);
        if j < i {
            assert(chars_lt(s[j].path@, s[i].path@));
        } else {
            assert(chars_lt(s[i].path@, s[j].path@));
        }
    }
}

/// Replacing the entry at index `i` by one with the same path leaves every
/// other path's entry as it was.
proof fn lemma_replaced_elsewhere(before: Seq<FileEntry>, after: Seq<FileEntry>, i: int, e: FileEntry)
    requires
        sorted_entries(before),
        sorted_entries(after),
        0 <= i < before.len(),
        before[i].path@ == e.path@,
        after == before.update(i, e),
    ensures
        forall|q: Seq<char>| q != e.path@ ==> #[trigger] lookup_in(after, q) == lookup_in(before, q),
{
    assert forall|q: Seq<char>| q != e.path@ implies #[trigger] lookup_in(after, q) == lookup_in(before, q) by {
        if has_path(before, q) {
            let j = index_of_path(before, q);
            lemma_lookup_index(before, j);
            assert(j != i);
            assert(after[j] == before[j]);
            lemma_lookup_index(after, j);
        } else if has_path(after, q) {
            let k = index_of_path(after, q);
            assert(k != i);
            assert(before[k] == after[k]);
        }
    }
}

/// Inserting an entry at index `i` leaves every other path's entry as it was.
proof fn lemma_inserted_elsewhere(before: Seq<FileEntry>, after: Seq<FileEntry>, i: int, e: FileEntry)
    requires
        sorted_entries(before),
        sorted_entries(after),
        0 <= i <= before.len(),
        after == before.insert(i, e),
    ensures
        forall|q: Seq<char>| q != e.path@ ==> #[trigger] lookup_in(after, q) == lookup_in(before, q),
{
    assert forall|q: Seq<char>| q != e.path@ implies #[trigger] lookup_in(after, q) == lookup_in(before, q) by {
        if has_path(before, q) {
            let j = index_of_path(before, q);
            lemma_lookup_index(before, j);
            let k = if j < i { j } else { j + 1 };
            assert(after[k] == before[j]);
            lemma_lookup_index(after, k);
        } else if has_path(after, q) {
            let k = index_of_path(after, q);
            assert(k != i);
            let j = if k < i { k } else { k - 1 };
            assert(before[j] == after[k]);
        }
    }
}

/// An in-memory, immutable-by-default view of a repository tree: files in
/// strictly increasing path order, plus repository metadata.
#[derive(Debug, PartialEq, Eq)]
pub struct RepositorySnapshot {
    files: SortedFiles,
    metadata: RepositoryMetadata,
}

/// File entries kept in strictly increasing path order.
#[derive(Debug, PartialEq, Eq)]
struct SortedFiles {
    v: Vec<FileEntry>,
}

impl SortedFiles {
    #[verifier::type_invariant]
    spec fn inv(self) -> bool {
        sorted_entries(self.v@)
    }
}

impl RepositorySnapshot {

    /// The files, in path order.
    pub closed spec fn entries(self) -> Seq<FileEntry> {
        self.files.v@
    }

    /// The repository metadata.
    pub closed spec fn meta(self) -> RepositoryMetadata {
        self.metadata
    }

    /// The file at path `p`, if any.
    pub open spec fn lookup(self, p: Seq<char>) -> Option<FileEntry> {
        lookup_in(self.entries(), p)
    }

    /// Creates an empty snapshot.
    pub fn new() -> (r: RepositorySnapshot)
        ensures
            r.entries().len() == 0,
            r.meta().head is None,
            r.meta().head_message is None,
            r.meta().custom@.len() == 0,
    {
        RepositorySnapshot { files: SortedFiles { v: Vec::new() }, metadata: RepositoryMetadata::default() }
    }

    /// Creates a snapshot from a list of files; of several files with the
    /// same path the last one is kept.
    pub fn from_files(files: Vec<FileEntry>) -> (r: RepositorySnapshot)
        ensures
            forall|p: Seq<char>| #[trigger] r.lookup(p) == last_with_path(files@, p),
            r.meta().head is None,
            r.meta().head_message is None,
            r.meta().custom@.len() == 0,
    {
        let mut snapshot = RepositorySnapshot::new();
        let mut rest = files;
        let ghost all = rest@;
        let ghost mut k: int = 0;
        while rest.len() > 0
            invariant
                0 <= k <= all.len(),
                rest@ == all.subrange(k, all.len() as int),
                forall|p: Seq<char>| #[trigger] snapshot.lookup(p) == last_with_path(all.subrange(0, k), p),
                snapshot.meta().head is None,
                snapshot.meta().head_message is None,
                snapshot.meta().custom@.len() == 0,
            decreases rest@.len(),
        {
            let e = rest.remove(0);
            proof {
                assert(e == all[k]);
            }
            snapshot.insert(e);
            proof {
                let before = all.subrange(0, k);
                let after = all.subrange(0, k + 1);
                assert(after.drop_last() =~= before);
                assert(after.last() == e);
                k = k + 1;
                assert(rest@ =~= all.subrange(k, all.len() as int));
                assert forall|p: Seq<char>| #[trigger] snapshot.lookup(p) == last_with_path(all.subrange(0, k), p) by {
                    assert(after == all.subrange(0, k));
                }
            }
        }
        proof {
            assert(all.subrange(0, k) =~= all);
        }
        snapshot
    }

    /// Number of files in the snapshot.
    pub fn len(&self) -> (r: usize)
        ensures
            r == self.entries().len(),
    {
        self.files.v.len()
    }

    /// Returns `true` if the snapshot contains no files.
    pub fn is_empty(&self) -> (r: bool)
        ensures
            r == (self.entries().len() == 0),
    {
        self.files.v.len() == 0
    }

    /// Where `path` is or would be: the first index whose path does not
    /// precede `path`, and whether the path there equals it.
    fn position(&self, path: &RepoPath) -> (r: (usize, bool))
        ensures
            r.0 <= self.entries().len(),
            forall|k: int| 0 <= k < r.0 ==> chars_lt(#[trigger] self.entries()[k].path@, path@),
            r.0 < self.entries().len() ==> !chars_lt(self.entries()[r.0 as int].path@, path@),
            r.1 <==> (r.0 < self.entries().len() && self.entries()[r.0 as int].path@ == path@),
            !r.1 ==> r.0 < self.entries().len() ==> chars_lt(path@, self.entries()[r.0 as int].path@),
    {
        proof {
            use_type_invariant(&self.files);
        }
        let mut i: usize = 0;
        while i < self.files.v.len()
            invariant
                i <= self.files.v@.len(),
                forall|k: int| 0 <= k < i ==> chars_lt(#[trigger] self.files.v@[k].path@, path@),
            decreases self.files.v@.len() - i,
        {
            let c = self.files.v[i].path.compare(path);
            if c >= 0 {
                proof {
                    lemma_chars_lt_total(self.files.v@[i as int].path@, path@);
                }
                return (i, c == 0);
            }
            i = i + 1;
        }
        (i, false)
    }

    /// Returns the file at the given path, if present.
    pub fn get(&self, path: &RepoPath) -> (r: Option<&FileEntry>)
        ensures
            match r {
                Some(e) => self.lookup(path@) == Some(*e),
                None => self.lookup(path@) is None,
            },
    {
        proof {
            use_type_invariant(&self.files);
        }
        let (i, found) = self.position(path);
        if found {
            proof {
                lemma_lookup_index(self.files.v@, i as int);
            }
            Some(&self.files.v[i])
        } else {
            proof {
                self.lemma_absent(path@, i as int);
            }
            None
        }
    }

    proof fn lemma_absent(&self, p: Seq<char>, i: int)
        requires
            sorted_entries(self.files.v@),
            0 <= i <= self.files.v@.len(),
            forall|k: int| 0 <= k < i ==> chars_lt(#[trigger] self.files.v@[k].path@, p),
            i < self.files.v@.len() ==> chars_lt(p, self.files.v@[i].path@),
        ensures
            !has_path(self.files.v@, p),
    {
        if has_path(self.files.v@, p) {
            let j = choose|j: int| 0 <= j < self.files.v@.len() && #[trigger] self.files.v@[j].path@ == p;
            lemma_chars_lt_irreflexive(p);
            if j > i {
                lemma_chars_lt_transitive(p, self.files.v@[i].path@, self.files.v@[j].path@);
            }
        }
    }

    /// Returns `true` if a file exists at the given path.
    pub fn contains(&self, path: &RepoPath) -> (r: bool)
        ensures
            r == self.lookup(path@) is Some,
    {
        self.get(path).is_some()
    }

    /// Inserts a file entry, replacing any existing entry at the same path,
    /// and returns the replaced entry.
    pub fn insert(&mut self, entry: FileEntry) -> (r: Option<FileEntry>)
        ensures
            r == old(self).lookup(entry.path@),
            final(self).lookup(entry.path@) == Some(entry),
            forall|p: Seq<char>| p != entry.path@ ==> #[trigger] final(self).lookup(p) == old(self).lookup(p),
            final(self).meta() == old(self).meta(),
            final(self).entries().len() == old(self).entries().len() + (if r is Some { 0int } else { 1int }),
    {
        proof {
            use_type_invariant(&self.files);
        }
        let (i, found) = self.position(&entry.path);
        let ghost before = self.files.v@;
        let ghost p = entry.path@;
        if found {
            proof {
                lemma_lookup_index(before, i as int);
            }
            let mut files: Vec<FileEntry> = Vec::new();
            std::mem::swap(&mut files, &mut self.files.v);
            let old_entry = files.remove(i);
            files.insert(i, entry);
            proof {
                assert(files@ =~= before.update(i as int, entry));
                assert forall|a: int, b: int| 0 <= a < b < files@.len() implies chars_lt(
                    #[trigger] files@[a].path@,
                    #[trigger] files@[b].path@,
                ) by {
                    assert(chars_lt(before[a].path@, before[b].path@));
                }
            }
            self.files.v = files;
            proof {
                assert(self.files.v@ =~= before.update(i as int, entry));
                assert forall|a: int, b: int| 0 <= a < b < self.files.v@.len() implies chars_lt(
                    #[trigger] self.files.v@[a].path@,
                    #[trigger] self.files.v@[b].path@,
                ) by {
                    assert(chars_lt(before[a].path@, before[b].path@));
                }
                lemma_lookup_index(self.files.v@, i as int);
                lemma_replaced_elsewhere(before, self.files.v@, i as int, entry);
            }
            Some(old_entry)
        } else {
            proof {
                self.lemma_absent(p, i as int);
            }
            let mut files: Vec<FileEntry> = Vec::new();
            std::mem::swap(&mut files, &mut self.files.v);
            files.insert(i, entry);
            proof {
                assert(files@ =~= before.insert(i as int, entry));
                assert forall|a: int, b: int| 0 <= a < b < files@.len() implies chars_lt(
                    #[trigger] files@[a].path@,
                    #[trigger] files@[b].path@,
                ) by {
                    if a < i && b < i {
                    } else if a < i && b == i {
                    } else if a < i && b > i {
                        if b - 1 > i {
                            assert(chars_lt(before[i as int].path@, before[b - 1].path@));
                            lemma_chars_lt_transitive(p, before[i as int].path@, before[b - 1].path@);
                        }
                        lemma_chars_lt_transitive(before[a].path@, p, before[b - 1].path@);
                    } else if a == i {
                        if b - 1 > i {
                            assert(chars_lt(before[i as int].path@, before[b - 1].path@));
                            lemma_chars_lt_transitive(p, before[i as int].path@, before[b - 1].path@);
                        }
                    } else {
                        assert(chars_lt(before[a - 1].path@, before[b - 1].path@));
                    }
                }
            }
            self.files.v = files;
            proof {
                assert(self.files.v@ =~= before.insert(i as int, entry));
                lemma_lookup_index(self.files.v@, i as int);
                lemma_inserted_elsewhere(before, self.files.v@, i as int, entry);
            }
            None
        }
    }

    /// Removes the file at the given path, returning it if present.
    pub fn remove(&mut self, path: &RepoPath) -> (r: Option<FileEntry>)
        ensures
            r == old(self).lookup(path@),
            final(self).lookup(path@) is None,
            forall|p: Seq<char>| p != path@ ==> #[trigger] final(self).lookup(p) == old(self).lookup(p),
            final(self).meta() == old(self).meta(),
            final(self).entries().len() == old(self).entries().len() - (if r is Some { 1int } else { 0int }),
    {
        proof {
            use_type_invariant(&self.files);
        }
        let (i, found) = self.position(path);
        let ghost before = self.files.v@;
        if found {
            proof {
                lemma_lookup_index(before, i as int);
            }
            let mut files: Vec<FileEntry> = Vec::new();
            std::mem::swap(&mut files, &mut self.files.v);
            let old_entry = files.remove(i);
            proof {
                assert(files@ =~= before.remove(i as int));
                assert forall|a: int, b: int| 0 <= a < b < files@.len() implies chars_lt(
                    #[trigger] files@[a].path@,
                    #[trigger] files@[b].path@,
                ) by {
                    if a < i && b >= i {
                        assert(chars_lt(before[a].path@, before[b + 1].path@));
                    } else if a >= i {
                        assert(chars_lt(before[a + 1].path@, before[b + 1].path@));
                    } else {
                        assert(chars_lt(before[a].path@, before[b].path@));
                    }
                }
            }
            self.files.v = files;
            proof {
                self.lemma_removed(before, i as int, path@);
            }
            Some(old_entry)
        } else {
            proof {
                self.lemma_absent(path@, i as int);
            }
            None
        }
    }

    proof fn lemma_removed(&self, before: Seq<FileEntry>, i: int, p: Seq<char>)
        requires
            sorted_entries(before),
            sorted_entries(self.files.v@),
            0 <= i < before.len(),
            before[i].path@ == p,
            self.files.v@ == before.remove(i),
        ensures
            !has_path(self.files.v@, p),
            forall|q: Seq<char>| q != p ==> #[trigger] lookup_in(self.files.v@, q) == lookup_in(before, q),
    {
        let after = self.files.v@;
        if has_path(after, p) {
            let j = choose|j: int| 0 <= j < after.len() && #[trigger] after[j].path@ == p;
            lemma_chars_lt_irreflexive(p);
            if j < i {
                assert(chars_lt(before[j].path@, before[i].path@));
            } else {
                assert(chars_lt(before[i].path@, before[j + 1].path@));
            }
        }
        assert forall|q: Seq<char>| q != p implies #[trigger] lookup_in(after, q) == lookup_in(before, q) by {
            if has_path(before, q) {
                let j = index_of_path(before, q);
                lemma_lookup_index(before, j);
                assert(j != i);
                let k = if j < i { j } else { j - 1 };
                assert(after[k] == before[j]);
                lemma_lookup_index(after, k);
            } else {
                if has_path(after, q) {
                    let k = index_of_path(after, q);
                    let j = if k < i { k } else { k + 1 };
                    assert(before[j] == after[k]);
                }
            }
        }
    }

    /// The files in path order.
    pub fn iter(&self) -> (r: &[FileEntry])
        ensures
            r@ == self.entries(),
            sorted_entries(r@),
    {
        proof {
            use_type_invariant(&self.files);
        }
        self.files.v.as_slice()
    }

    /// The file paths in path order.
    pub fn paths(&self) -> (r: Vec<RepoPath>)
        ensures
            r@.len() == self.entries().len(),
            forall|i: int| 0 <= i < r@.len() ==> #[trigger] r@[i]@ == self.entries()[i].path@,
    {
        let mut out: Vec<RepoPath> = Vec::new();
        let mut i: usize = 0;
        while i < self.files.v.len()
            invariant
                i <= self.files.v@.len(),
                out@.len() == i,
                forall|k: int| 0 <= k < i ==> #[trigger] out@[k]@ == self.files.v@[k].path@,
            decreases self.files.v@.len() - i,
        {
            out.push(self.files.v[i].path.clone());
            i = i + 1;
        }
        out
    }

    /// Returns the repository metadata.
    pub fn metadata(&self) -> (r: &RepositoryMetadata)
        ensures
            *r == self.meta(),
    {
        &self.metadata
    }

    /// Returns the repository metadata, mutably; the files stay as they are.
    pub fn metadata_mut(&mut self) -> (r: &mut RepositoryMetadata)
        ensures
            *r == old(self).meta(),
            final(self).meta() == *final(r),
            final(self).entries() == old(self).entries(),
    {
        &mut self.metadata
    }

    /// Replaces the repository metadata.
    pub fn set_metadata(&mut self, metadata: RepositoryMetadata)
        ensures
            final(self).meta() == metadata,
            final(self).entries() == old(self).entries(),
    {
        proof {
            use_type_invariant(&self.files);
        }
        self.metadata = metadata;
    }
}

} // verus!

//! Path/content-level differences between two snapshots, with rename
//! detection.
use vstd::prelude::*;
use vstd::relations::injective_on;
use vstd::set_lib::{lemma_int_range, lemma_map_size, set_int_range};

use crate::model::blob::{
    bytes_lt, lemma_bytes_lt_irreflexive, lemma_bytes_lt_total, lemma_bytes_lt_transitive,
    sha256_of, BlobId,
};
use crate::model::mode::{mode_rank, FileMode};
use crate::model::path::RepoPath;
use crate::model::snapshot::{has_path, lookup_in, sorted_entries, FileEntry, RepositorySnapshot};
use crate::text::{chars_lt, lemma_chars_lt_irreflexive, lemma_chars_lt_total, lemma_chars_lt_transitive};

verus! {

/// A file that was added, removed, or modified between two snapshots.
#[derive(Debug, Clone, PartialEq, Eq)]
pub struct DiffEntry {
    /// Repository path of the file.
    pub path: RepoPath,
    /// Content hash before the change, if the file existed in the old snapshot.
    pub old_hash: Option<BlobId>,
    /// Content hash after the change, if the file exists in the new snapshot.
    pub new_hash: Option<BlobId>,
    /// Mode before the change, if the file existed in the old snapshot.
    pub old_mode: Option<FileMode>,
    /// Mode after the change, if the file exists in the new snapshot.
    pub new_mode: Option<FileMode>,
}

/// A file whose path changed while content and mode stayed identical.
#[derive(Debug, Clone, PartialEq, Eq)]
pub struct RenameEntry {
    /// Old path.
    pub from: RepoPath,
    /// New path.
    pub to: RepoPath,
    /// Content hash, identical on both sides.
    pub hash: BlobId,
    /// File mode, identical on both sides.
    pub mode: FileMode,
}

/// Path/content-level difference between two snapshots.
#[derive(Debug, Clone, PartialEq, Eq)]
pub struct SnapshotDiff {
    /// Files added in the new snapshot.
    pub added: Vec<DiffEntry>,
    /// Files present in both snapshots with different content or mode.
    pub modified: Vec<DiffEntry>,
    /// Files removed from the old snapshot.
    pub removed: Vec<DiffEntry>,
    /// Files renamed (identical content and mode) between the snapshots.
    pub renamed: Vec<RenameEntry>,
}

impl SnapshotDiff {
    /// Returns `true` when no files changed between the snapshots.
    pub fn is_empty(&self) -> (r: bool)
        ensures
            r == (self.added@.len() == 0 && self.modified@.len() == 0 && self.removed@.len() == 0
                && self.renamed@.len() == 0),
    {
        self.added.len() == 0 && self.modified.len() == 0 && self.removed.len() == 0
            && self.renamed.len() == 0
    }

    /// Total number of changed files (each rename counts once).
    pub fn changes(&self) -> (r: usize)
        requires
            self.added@.len() + self.modified@.len() + self.removed@.len() + self.renamed@.len()
                <= usize::MAX,
        ensures
            r == self.added@.len() + self.modified@.len() + self.removed@.len()
                + self.renamed@.len(),
    {
        self.added.len() + self.modified.len() + self.removed.len() + self.renamed.len()
    }
}

/// The content hash of an entry.
pub open spec fn hash_of(e: FileEntry) -> Seq<u8> {
    sha256_of(e.content.bytes())
}

/// Two entries have the same rename key: content hash and mode.
pub open spec fn same_key(a: FileEntry, b: FileEntry) -> bool {
    hash_of(a) == hash_of(b) && a.mode == b.mode
}

/// Content or mode differ.
pub open spec fn differs(a: FileEntry, b: FileEntry) -> bool {
    !same_key(a, b)
}

/// The entries of `s` whose path does not occur in `other`, in order.
pub open spec fn only_in(s: Seq<FileEntry>, other: Seq<FileEntry>) -> Seq<FileEntry>
    decreases s.len(),
{
    if s.len() == 0 {
        seq![]
    } else {
        let r = only_in(s.drop_last(), other);
        if has_path(other, s.last().path@) {
            r
        } else {
            r.push(s.last())
        }
    }
}

/// The (old, new) pairs of entries at paths present in both sequences whose
/// content or mode differ, in the order of `o`.
pub open spec fn changed_pairs(o: Seq<FileEntry>, n: Seq<FileEntry>) -> Seq<(FileEntry, FileEntry)>
    decreases o.len(),
{
    if o.len() == 0 {
        seq![]
    } else {
        let r = changed_pairs(o.drop_last(), n);
        let e = o.last();
        if has_path(n, e.path@) && differs(e, lookup_in(n, e.path@)->0) {
            r.push((e, lookup_in(n, e.path@)->0))
        } else {
            r
        }
    }
}

/// Number of entries among the first `m` of `s` with the same key as `k`.
pub open spec fn count_key(s: Seq<FileEntry>, k: FileEntry, m: int) -> nat
    decreases m,
{
    if m <= 0 {
        0
    } else if same_key(s[m - 1], k) {
        count_key(s, k, m - 1) + 1
    } else {
        count_key(s, k, m - 1)
    }
}

/// Entry `i` of `s` is paired with an entry of `other`: among the entries of
/// its key it comes at a position that `other` also has.
pub open spec fn paired(s: Seq<FileEntry>, other: Seq<FileEntry>, i: int) -> bool {
    count_key(s, s[i], i) < count_key(other, s[i], other.len() as int)
}

/// The entries among the first `m` of `s` that are not paired with `other`.
pub open spec fn unpaired_prefix(s: Seq<FileEntry>, other: Seq<FileEntry>, m: int) -> Seq<FileEntry>
    decreases m,
{
    if m <= 0 {
        seq![]
    } else if paired(s, other, m - 1) {
        unpaired_prefix(s, other, m - 1)
    } else {
        unpaired_prefix(s, other, m - 1).push(s[m - 1])
    }
}

/// The entries of `s` that are not paired with `other`, in order.
pub open spec fn unpaired(s: Seq<FileEntry>, other: Seq<FileEntry>) -> Seq<FileEntry> {
    unpaired_prefix(s, other, s.len() as int)
}

/// `d` reports the change at the path of `old` and/or `new`.
pub open spec fn reports(d: DiffEntry, old: Option<FileEntry>, new: Option<FileEntry>) -> bool {
    &&& match (old, new) {
        (Some(o), _) => d.path@ == o.path@,
        (None, Some(n)) => d.path@ == n.path@,
        (None, None) => false,
    }
    &&& match old {
        Some(o) => d.old_hash matches Some(h) && h@ == hash_of(o) && d.old_mode == Some(o.mode),
        None => d.old_hash is None && d.old_mode is None,
    }
    &&& match new {
        Some(n) => d.new_hash matches Some(h) && h@ == hash_of(n) && d.new_mode == Some(n.mode),
        None => d.new_hash is None && d.new_mode is None,
    }
}

/// `x` is the rename of entry `i` of the added files `a`, paired with the
/// entry of the removed files `r` that has the same key and position.
pub open spec fn is_rename_of(x: RenameEntry, a: Seq<FileEntry>, r: Seq<FileEntry>, i: int) -> bool {
    &&& 0 <= i < a.len()
    &&& paired(a, r, i)
    &&& x.to@ == a[i].path@
    &&& x.hash@ == hash_of(a[i])
    &&& x.mode == a[i].mode
    &&& exists|j: int|
        0 <= j < r.len() && same_key(#[trigger] r[j], a[i]) && count_key(r, r[j], j) == count_key(
            a,
            a[i],
            i,
        ) && x.from@ == r[j].path@
}

/// Order of renames: by content hash, then mode, then new path.
pub open spec fn rename_lt(x: RenameEntry, y: RenameEntry) -> bool {
    ||| bytes_lt(x.hash@, y.hash@)
    ||| (x.hash@ == y.hash@ && mode_rank(x.mode) < mode_rank(y.mode))
    ||| (x.hash@ == y.hash@ && x.mode == y.mode && chars_lt(x.to@, y.to@))
}

/// The renames between files added (`a`) and removed (`r`): each is the
/// rename of a paired added file, every paired added file has one, and they
/// come in increasing [`rename_lt`] order.
pub open spec fn renames_of(rn: Seq<RenameEntry>, a: Seq<FileEntry>, r: Seq<FileEntry>) -> bool {
    &&& forall|t: int| 0 <= t < rn.len() ==> #[trigger] renames_one_of(rn[t], a, r, a.len() as int)
    &&& forall|i: int| 0 <= i < a.len() && paired(a, r, i) ==> #[trigger] listed(rn, a, r, i)
    &&& forall|t: int, u: int| 0 <= t < u < rn.len() ==> rename_lt(#[trigger] rn[t], #[trigger] rn[u])
}

/// `x` is the rename of one of the first `k` added entries.
pub open spec fn renames_one_of(x: RenameEntry, a: Seq<FileEntry>, r: Seq<FileEntry>, k: int) -> bool {
    exists|i: int| 0 <= i < k && #[trigger] is_rename_of(x, a, r, i)
}

/// The rename of added entry `i` is listed in `rn`.
pub open spec fn listed(rn: Seq<RenameEntry>, a: Seq<FileEntry>, r: Seq<FileEntry>, i: int) -> bool {
    exists|t: int| 0 <= t < rn.len() && #[trigger] is_rename_of(rn[t], a, r, i)
}

/// The difference between entry sequences `o` (old) and `n` (new).
pub open spec fn is_diff_of(d: SnapshotDiff, o: Seq<FileEntry>, n: Seq<FileEntry>) -> bool {
    let a = only_in(n, o);
    let r = only_in(o, n);
    let m = changed_pairs(o, n);
    let ka = unpaired(a, r);
    let kr = unpaired(r, a);
    &&& d.modified@.len() == m.len()
    &&& forall|k: int| 0 <= k < m.len() ==> reports(#[trigger] d.modified@[k], Some(m[k].0), Some(m[k].1))
    &&& d.added@.len() == ka.len()
    &&& forall|k: int| 0 <= k < ka.len() ==> reports(#[trigger] d.added@[k], None, Some(ka[k]))
    &&& d.removed@.len() == kr.len()
    &&& forall|k: int| 0 <= k < kr.len() ==> reports(#[trigger] d.removed@[k], Some(kr[k]), None)
    &&& renames_of(d.renamed@, a, r)
}


/// The entries of `s` at the indices `idx`.
pub open spec fn pick(s: Seq<FileEntry>, idx: Seq<usize>) -> Seq<FileEntry> {
    Seq::new(idx.len(), |t: int| s[idx[t] as int])
}

/// Every index of `idx` is an index of `s`.
pub open spec fn indices_in(idx: Seq<usize>, len: int) -> bool {
    forall|t: int| 0 <= t < idx.len() ==> #[trigger] idx[t] < len
}

/// `only_in` keeps the order and the elements it keeps come from `s`.
proof fn lemma_only_in(s: Seq<FileEntry>, other: Seq<FileEntry>)
    requires
        sorted_entries(s),
    ensures
        sorted_entries(only_in(s, other)),
        forall|t: int| 0 <= t < only_in(s, other).len() ==> exists|j: int| 0 <= j < s.len() && s[j] == #[trigger] only_in(s, other)[t],
    decreases s.len(),
{
    if s.len() > 0 {
        let d = s.drop_last();
        assert(sorted_entries(d)) by {
            assert forall|i: int, j: int| 0 <= i < j < d.len() implies chars_lt(#[trigger] d[i].path@, #[trigger] d[j].path@) by {
                assert(d[i] == s[i] && d[j] == s[j]);
            }
        }
        lemma_only_in(d, other);
        let r = only_in(d, other);
        let full = only_in(s, other);
        assert forall|t: int| 0 <= t < full.len() implies exists|j: int| 0 <= j < s.len() && s[j] == #[trigger] full[t] by {
            if t < r.len() {
                let j = choose|j: int| 0 <= j < d.len() && d[j] == r[t];
                assert(s[j] == full[t]);
            } else {
                assert(s[s.len() - 1] == full[t]);
            }
        }
        if !has_path(other, s.last().path@) {
            assert forall|i: int, j: int| 0 <= i < j < full.len() implies chars_lt(#[trigger] full[i].path@, #[trigger] full[j].path@) by {
                if j < r.len() {
                } else {
                    let k = choose|k: int| 0 <= k < d.len() && d[k] == r[i];
                    assert(chars_lt(s[k].path@, s[s.len() - 1].path@));
                }
            }
        }
    }
}

/// Executable form of [`same_key`].
fn same_key_exec(a: &FileEntry, b: &FileEntry) -> (r: bool)
    ensures
        r == same_key(*a, *b),
{
    a.content.hash().same_as(&b.content.hash()) && a.mode == b.mode
}

/// Counts the entries among the first `m` picked ones with the key of `k`.
fn count_key_exec(s: &[FileEntry], idx: &Vec<usize>, k: &FileEntry, m: usize) -> (r: usize)
    requires
        indices_in(idx@, s@.len() as int),
        m <= idx@.len(),
    ensures
        r == count_key(pick(s@, idx@), *k, m as int),
{
    let ghost ps = pick(s@, idx@);
    let mut c: usize = 0;
    let mut t: usize = 0;
    while t < m
        invariant
            indices_in(idx@, s@.len() as int),
            m <= idx@.len(),
            ps == pick(s@, idx@),
            t <= m,
            c == count_key(ps, *k, t as int),
            c <= t,
        decreases m - t,
    {
        let e = &s[idx[t]];
        if same_key_exec(e, k) {
            c = c + 1;
        }
        t = t + 1;
    }
    c
}

/// The picked index whose entry has the key of `k` and comes at position
/// `rank` among the entries of that key.
fn nth_with_key(s: &[FileEntry], idx: &Vec<usize>, k: &FileEntry, rank: usize) -> (r: usize)
    requires
        indices_in(idx@, s@.len() as int),
        rank < count_key(pick(s@, idx@), *k, idx@.len() as int),
    ensures
        r < idx@.len(),
        same_key(pick(s@, idx@)[r as int], *k),
        count_key(pick(s@, idx@), pick(s@, idx@)[r as int], r as int) == rank,
{
    let ghost ps = pick(s@, idx@);
    let mut c: usize = 0;
    let mut t: usize = 0;
    while t < idx.len()
        invariant
            indices_in(idx@, s@.len() as int),
            ps == pick(s@, idx@),
            rank < count_key(ps, *k, idx@.len() as int),
            t <= idx@.len(),
            c == count_key(ps, *k, t as int),
            c <= rank,
        decreases idx@.len() - t,
    {
        let e = &s[idx[t]];
        if same_key_exec(e, k) {
            if c == rank {
                proof {
                    lemma_count_same_key(ps, ps[t as int], *k, t as int);
                }
                return t;
            }
            c = c + 1;
        }
        t = t + 1;
    }
    proof {
        assert(false);
    }
    0
}

/// Counting by two entries of one key gives the same numbers.
proof fn lemma_count_same_key(s: Seq<FileEntry>, k1: FileEntry, k2: FileEntry, m: int)
    requires
        same_key(k1, k2),
    ensures
        count_key(s, k1, m) == count_key(s, k2, m),
    decreases m,
{
    if m > 0 {
        lemma_count_same_key(s, k1, k2, m - 1);
    }
}

/// A diff entry for the change at the path of `old` and/or `new`.
fn entry_from(old: Option<&FileEntry>, new: Option<&FileEntry>) -> (d: DiffEntry)
    requires
        old is Some || new is Some,
    ensures
        reports(
            d,
            match old {
                Some(o) => Some(*o),
                None => None,
            },
            match new {
                Some(n) => Some(*n),
                None => None,
            },
        ),
{
    let path = match old {
        Some(o) => o.path.clone(),
        None => match new {
            Some(n) => n.path.clone(),
            None => {
                proof {
                    assert(false);
                }
                new.unwrap().path.clone()
            },
        },
    };
    DiffEntry {
        path,
        old_hash: match old {
            Some(o) => Some(o.content.hash()),
            None => None,
        },
        new_hash: match new {
            Some(n) => Some(n.content.hash()),
            None => None,
        },
        old_mode: match old {
            Some(o) => Some(o.mode),
            None => None,
        },
        new_mode: match new {
            Some(n) => Some(n.mode),
            None => None,
        },
    }
}

/// The rename order is transitive.
proof fn lemma_rename_lt_transitive(x: RenameEntry, y: RenameEntry, z: RenameEntry)
    requires
        rename_lt(x, y),
        rename_lt(y, z),
    ensures
        rename_lt(x, z),
{
    BlobId::lemma_len(x.hash);
    BlobId::lemma_len(y.hash);
    BlobId::lemma_len(z.hash);
    lemma_bytes_lt_irreflexive(x.hash@);
    lemma_bytes_lt_irreflexive(y.hash@);
    if bytes_lt(x.hash@, y.hash@) && bytes_lt(y.hash@, z.hash@) {
        lemma_bytes_lt_transitive(x.hash@, y.hash@, z.hash@);
    }
    if x.hash@ == y.hash@ && y.hash@ == z.hash@ && x.mode == y.mode && y.mode == z.mode {
        if chars_lt(x.to@, y.to@) && chars_lt(y.to@, z.to@) {
            lemma_chars_lt_transitive(x.to@, y.to@, z.to@);
        }
    }
}

/// Renames to different paths are ordered one way or the other.
proof fn lemma_rename_lt_total(x: RenameEntry, y: RenameEntry)
    requires
        x.to@ != y.to@,
    ensures
        rename_lt(x, y) || rename_lt(y, x),
        !(rename_lt(x, y) && rename_lt(y, x)),
{
    BlobId::lemma_len(x.hash);
    BlobId::lemma_len(y.hash);
    lemma_bytes_lt_total(x.hash@, y.hash@);
    lemma_chars_lt_total(x.to@, y.to@);
    lemma_bytes_lt_irreflexive(x.hash@);
    if x.mode != y.mode {
        assert(mode_rank(x.mode) != mode_rank(y.mode));
    }
}

/// Executable form of [`rename_lt`].
fn rename_precedes(x: &RenameEntry, y: &RenameEntry) -> (r: bool)
    ensures
        r == rename_lt(*x, *y),
{
    proof {
        BlobId::lemma_len(x.hash);
        BlobId::lemma_len(y.hash);
        lemma_bytes_lt_irreflexive(x.hash@);
        lemma_bytes_lt_total(x.hash@, y.hash@);
    }
    if x.hash.precedes(&y.hash) {
        true
    } else if !x.hash.same_as(&y.hash) {
        false
    } else if x.mode.precedes(y.mode) {
        true
    } else if x.mode != y.mode {
        false
    } else {
        x.to.compare(&y.to) < 0
    }
}

/// All renames in `s` come in increasing order.
pub open spec fn renames_sorted(s: Seq<RenameEntry>) -> bool {
    forall|t: int, u: int| 0 <= t < u < s.len() ==> rename_lt(#[trigger] s[t], #[trigger] s[u])
}

/// Inserts `x` where it belongs in a sorted list of renames to other paths.
fn insert_sorted(out: &mut Vec<RenameEntry>, x: RenameEntry)
    requires
        renames_sorted(old(out)@),
        forall|t: int| 0 <= t < old(out)@.len() ==> (#[trigger] old(out)@[t]).to@ != x.to@,
    ensures
        renames_sorted(final(out)@),
        exists|p: int| 0 <= p <= old(out)@.len() && final(out)@ == old(out)@.insert(p, x),
{
    let ghost before = out@;
    let mut p: usize = 0;
    while p < out.len() && !rename_precedes(&x, &out[p])
        invariant
            out@ == before,
            p <= out@.len(),
            renames_sorted(before),
            forall|t: int| 0 <= t < before.len() ==> (#[trigger] before[t]).to@ != x.to@,
            forall|q: int| 0 <= q < p ==> rename_lt(#[trigger] before[q], x),
        decreases out@.len() - p,
    {
        proof {
            lemma_rename_lt_total(x, before[p as int]);
        }
        p = p + 1;
    }
    out.insert(p, x);
    proof {
        let after = out@;
        assert(after =~= before.insert(p as int, x));
        assert forall|t: int, u: int| 0 <= t < u < after.len() implies rename_lt(#[trigger] after[t], #[trigger] after[u]) by {
            if u < p {
            } else if t < p && u == p {
            } else if t < p && u > p {
                if u - 1 > p {
                    lemma_rename_lt_transitive(x, before[p as int], before[u - 1]);
                }
                if u - 1 == p {
                }
                lemma_rename_lt_transitive(before[t], x, before[u - 1]);
            } else if t == p {
                if u - 1 > p {
                    lemma_rename_lt_transitive(x, before[p as int], before[u - 1]);
                }
            } else {
                assert(rename_lt(before[t - 1], before[u - 1]));
            }
        }
    }
}


/// Walks the old files: reports those whose content or mode changed and
/// collects the indices of those absent from `new`.
fn old_pass(old: &RepositorySnapshot, new: &RepositorySnapshot) -> (r: (Vec<DiffEntry>, Vec<usize>))
    ensures
        r.0@.len() == changed_pairs(old.entries(), new.entries()).len(),
        forall|k: int| 0 <= k < r.0@.len() ==> reports(
            #[trigger] r.0@[k],
            Some(changed_pairs(old.entries(), new.entries())[k].0),
            Some(changed_pairs(old.entries(), new.entries())[k].1),
        ),
        indices_in(r.1@, old.entries().len() as int),
        pick(old.entries(), r.1@) == only_in(old.entries(), new.entries()),
{
    let o = old.iter();
    let ghost os = o@;
    let ghost ns = new.entries();
    let mut modified: Vec<DiffEntry> = Vec::new();
    let mut ri: Vec<usize> = Vec::new();
    let mut k: usize = 0;
    while k < o.len()
        invariant
            os == o@,
            os == old.entries(),
            ns == new.entries(),
            k <= os.len(),
            indices_in(ri@, os.len() as int),
            pick(os, ri@) == only_in(os.subrange(0, k as int), ns),
            modified@.len() == changed_pairs(os.subrange(0, k as int), ns).len(),
            forall|t: int| 0 <= t < modified@.len() ==> reports(
                #[trigger] modified@[t],
                Some(changed_pairs(os.subrange(0, k as int), ns)[t].0),
                Some(changed_pairs(os.subrange(0, k as int), ns)[t].1),
            ),
        decreases os.len() - k,
    {
        let e = &o[k];
        let ghost pre = os.subrange(0, k as int);
        let ghost cur = os.subrange(0, k + 1);
        proof {
            assert(cur.drop_last() =~= pre);
            assert(cur.last() == os[k as int]);
        }
        match new.get(&e.path) {
            Some(m) => {
                if !same_key_exec(e, m) {
                    modified.push(entry_from(Some(e), Some(m)));
                }
                proof {
                    assert(pick(os, ri@) =~= only_in(cur, ns));
                }
            },
            None => {
                ri.push(k);
                proof {
                    assert(pick(os, ri@) =~= only_in(cur, ns));
                }
            },
        }
        k = k + 1;
    }
    proof {
        assert(os.subrange(0, os.len() as int) =~= os);
    }
    (modified, ri)
}

/// Collects the indices of the new files absent from `old`.
fn new_pass(old: &RepositorySnapshot, new: &RepositorySnapshot) -> (r: Vec<usize>)
    ensures
        indices_in(r@, new.entries().len() as int),
        pick(new.entries(), r@) == only_in(new.entries(), old.entries()),
{
    let n = new.iter();
    let ghost ns = n@;
    let ghost os = old.entries();
    let mut ai: Vec<usize> = Vec::new();
    let mut k: usize = 0;
    while k < n.len()
        invariant
            ns == n@,
            ns == new.entries(),
            os == old.entries(),
            k <= ns.len(),
            indices_in(ai@, ns.len() as int),
            pick(ns, ai@) == only_in(ns.subrange(0, k as int), os),
        decreases ns.len() - k,
    {
        let ghost pre = ns.subrange(0, k as int);
        let ghost cur = ns.subrange(0, k + 1);
        proof {
            assert(cur.drop_last() =~= pre);
            assert(cur.last() == ns[k as int]);
        }
        if !old.contains(&n[k].path) {
            ai.push(k);
        }
        proof {
            assert(pick(ns, ai@) =~= only_in(cur, os));
        }
        k = k + 1;
    }
    proof {
        assert(ns.subrange(0, ns.len() as int) =~= ns);
    }
    ai
}

/// Reports the picked entries of `s` that are not paired with the picked
/// entries of `t`, in order.
fn unpaired_pass(
    s: &[FileEntry],
    si: &Vec<usize>,
    t: &[FileEntry],
    ti: &Vec<usize>,
    as_old: bool,
) -> (r: Vec<DiffEntry>)
    requires
        indices_in(si@, s@.len() as int),
        indices_in(ti@, t@.len() as int),
    ensures
        r@.len() == unpaired(pick(s@, si@), pick(t@, ti@)).len(),
        forall|k: int| 0 <= k < r@.len() ==> reports(
            #[trigger] r@[k],
            if as_old { Some(unpaired(pick(s@, si@), pick(t@, ti@))[k]) } else { None },
            if as_old { None } else { Some(unpaired(pick(s@, si@), pick(t@, ti@))[k]) },
        ),
{
    let ghost a = pick(s@, si@);
    let ghost b = pick(t@, ti@);
    let mut out: Vec<DiffEntry> = Vec::new();
    let mut k: usize = 0;
    while k < si.len()
        invariant
            indices_in(si@, s@.len() as int),
            indices_in(ti@, t@.len() as int),
            a == pick(s@, si@),
            b == pick(t@, ti@),
            k <= si@.len(),
            out@.len() == unpaired_prefix(a, b, k as int).len(),
            forall|q: int| 0 <= q < out@.len() ==> reports(
                #[trigger] out@[q],
                if as_old { Some(unpaired_prefix(a, b, k as int)[q]) } else { None },
                if as_old { None } else { Some(unpaired_prefix(a, b, k as int)[q]) },
            ),
        decreases si@.len() - k,
    {
        let e = &s[si[k]];
        let rank = count_key_exec(s, si, e, k);
        let cnt = count_key_exec(t, ti, e, ti.len());
        if !(rank < cnt) {
            if as_old {
                out.push(entry_from(Some(e), None));
            } else {
                out.push(entry_from(None, Some(e)));
            }
        }
        k = k + 1;
    }
    out
}

/// Pairs the picked added entries with removed entries of the same key and
/// position, collecting the renames in order.
fn rename_pass(n: &[FileEntry], ai: &Vec<usize>, o: &[FileEntry], ri: &Vec<usize>) -> (r: Vec<RenameEntry>)
    requires
        indices_in(ai@, n@.len() as int),
        indices_in(ri@, o@.len() as int),
        sorted_entries(pick(n@, ai@)),
    ensures
        renames_of(r@, pick(n@, ai@), pick(o@, ri@)),
{
    let ghost a = pick(n@, ai@);
    let ghost b = pick(o@, ri@);
    let mut out: Vec<RenameEntry> = Vec::new();
    let mut k: usize = 0;
    while k < ai.len()
        invariant
            indices_in(ai@, n@.len() as int),
            indices_in(ri@, o@.len() as int),
            a == pick(n@, ai@),
            b == pick(o@, ri@),
            sorted_entries(a),
            k <= ai@.len(),
            renames_upto(out@, a, b, k as int),
        decreases ai@.len() - k,
    {
        let e = &n[ai[k]];
        let rank = count_key_exec(n, ai, e, k);
        let cnt = count_key_exec(o, ri, e, ri.len());
        if rank < cnt {
            let j = nth_with_key(o, ri, e, rank);
            let x = RenameEntry {
                from: o[ri[j]].path.clone(),
                to: e.path.clone(),
                hash: e.content.hash(),
                mode: e.mode,
            };
            proof {
                lemma_count_same_key(b, b[j as int], a[k as int], j as int);
                assert(is_rename_of(x, a, b, k as int));
                lemma_new_target(out@, x, a, b, k as int);
            }
            let ghost before = out@;
            insert_sorted(&mut out, x);
            proof {
                let p = choose|p: int| 0 <= p <= before.len() && out@ == before.insert(p, x);
                lemma_rename_step(before, out@, x, a, b, k as int, p);
            }
        } else {
            proof {
                lemma_rename_skip(out@, a, b, k as int);
            }
        }
        k = k + 1;
    }
    out
}

/// The invariant of the rename pass after the first `k` added entries.
pub open spec fn renames_upto(out: Seq<RenameEntry>, a: Seq<FileEntry>, b: Seq<FileEntry>, k: int) -> bool {
    &&& renames_sorted(out)
    &&& forall|u: int| 0 <= u < out.len() ==> #[trigger] renames_one_of(out[u], a, b, k)
    &&& forall|i: int| 0 <= i < k && paired(a, b, i) ==> #[trigger] listed(out, a, b, i)
}

proof fn lemma_new_target(out: Seq<RenameEntry>, x: RenameEntry, a: Seq<FileEntry>, b: Seq<FileEntry>, k: int)
    requires
        renames_upto(out, a, b, k),
        sorted_entries(a),
        0 <= k < a.len(),
        x.to@ == a[k].path@,
    ensures
        forall|u: int| 0 <= u < out.len() ==> (#[trigger] out[u]).to@ != x.to@,
{
    assert forall|u: int| 0 <= u < out.len() implies (#[trigger] out[u]).to@ != x.to@ by {
        assert(renames_one_of(out[u], a, b, k));
        let i = choose|i: int| 0 <= i < k && #[trigger] is_rename_of(out[u], a, b, i);
        assert(chars_lt(a[i].path@, a[k].path@));
        lemma_chars_lt_irreflexive(x.to@);
    }
}

proof fn lemma_rename_step(
    before: Seq<RenameEntry>,
    after: Seq<RenameEntry>,
    x: RenameEntry,
    a: Seq<FileEntry>,
    b: Seq<FileEntry>,
    k: int,
    p: int,
)
    requires
        renames_upto(before, a, b, k),
        renames_sorted(after),
        0 <= p <= before.len(),
        after == before.insert(p, x),
        is_rename_of(x, a, b, k),
        0 <= k,
    ensures
        renames_upto(after, a, b, k + 1),
{
    assert forall|u: int| 0 <= u < after.len() implies #[trigger] renames_one_of(after[u], a, b, k + 1) by {
        if u < p {
            assert(after[u] == before[u]);
            assert(renames_one_of(before[u], a, b, k));
        } else if u == p {
            assert(is_rename_of(after[u], a, b, k));
        } else {
            assert(after[u] == before[u - 1]);
            assert(renames_one_of(before[u - 1], a, b, k));
        }
    }
    assert forall|i: int| 0 <= i < k + 1 && paired(a, b, i) implies #[trigger] listed(after, a, b, i) by {
        if i == k {
            assert(is_rename_of(after[p], a, b, i));
        } else {
            assert(listed(before, a, b, i));
            let u = choose|u: int| 0 <= u < before.len() && #[trigger] is_rename_of(before[u], a, b, i);
            if u < p {
                assert(after[u] == before[u]);
            } else {
                assert(after[u + 1] == before[u]);
            }
        }
    }
}

proof fn lemma_rename_skip(out: Seq<RenameEntry>, a: Seq<FileEntry>, b: Seq<FileEntry>, k: int)
    requires
        renames_upto(out, a, b, k),
        0 <= k < a.len(),
        !paired(a, b, k),
    ensures
        renames_upto(out, a, b, k + 1),
{
    assert forall|u: int| 0 <= u < out.len() implies #[trigger] renames_one_of(out[u], a, b, k + 1) by {
        assert(renames_one_of(out[u], a, b, k));
    }
    assert forall|i: int| 0 <= i < k + 1 && paired(a, b, i) implies #[trigger] listed(out, a, b, i) by {
        assert(i < k);
    }
}

/// Computes the path/content-level difference between two snapshots.
///
/// Files only in `new` are added and files only in `old` removed, except
/// that an added and a removed file with the same content hash and mode are
/// paired into a rename: within each (hash, mode) key the added files and
/// the removed files are paired in path order. Files in both whose content
/// or mode differ are modified. The result depends on the inputs alone.
pub fn diff(old: &RepositorySnapshot, new: &RepositorySnapshot) -> (r: SnapshotDiff)
    ensures
        is_diff_of(r, old.entries(), new.entries()),
        r.added@.len() + r.modified@.len() + r.removed@.len() + r.renamed@.len() <= old.entries().len()
            + new.entries().len(),
{
    let (modified, ri) = old_pass(old, new);
    let ai = new_pass(old, new);
    let o = old.iter();
    let n = new.iter();
    proof {
        lemma_only_in(n@, o@);
    }
    let added = unpaired_pass(n, &ai, o, &ri, false);
    let removed = unpaired_pass(o, &ri, n, &ai, true);
    let renamed = rename_pass(n, &ai, o, &ri);
    let r = SnapshotDiff { added, modified, removed, renamed };
    proof {
        lemma_only_in(o@, n@);
        lemma_change_count(o@, n@, r);
        lemma_old_side_bound(o@, n@);
        lemma_old_side_bound(n@, o@);
    }
    r
}


proof fn lemma_only_in_self(s: Seq<FileEntry>, m: int)
    requires
        0 <= m <= s.len(),
    ensures
        only_in(s.subrange(0, m), s).len() == 0,
    decreases m,
{
    if m > 0 {
        let p = s.subrange(0, m);
        assert(p.drop_last() =~= s.subrange(0, m - 1));
        assert(s[m - 1] == p.last());
        assert(has_path(s, p.last().path@));
        lemma_only_in_self(s, m - 1);
    }
}

proof fn lemma_changed_self(s: Seq<FileEntry>, m: int)
    requires
        sorted_entries(s),
        0 <= m <= s.len(),
    ensures
        changed_pairs(s.subrange(0, m), s).len() == 0,
    decreases m,
{
    if m > 0 {
        let p = s.subrange(0, m);
        assert(p.drop_last() =~= s.subrange(0, m - 1));
        assert(s[m - 1] == p.last());
        crate::model::snapshot::lemma_lookup_index(s, m - 1);
        lemma_changed_self(s, m - 1);
    }
}

/// A snapshot compared with itself has no changes: nothing added, removed,
/// modified, or renamed.
pub proof fn lemma_diff_of_identical_is_empty(s: Seq<FileEntry>, d: SnapshotDiff)
    requires
        sorted_entries(s),
        is_diff_of(d, s, s),
    ensures
        d.added@.len() == 0,
        d.removed@.len() == 0,
        d.modified@.len() == 0,
        d.renamed@.len() == 0,
{
    lemma_only_in_self(s, s.len() as int);
    lemma_changed_self(s, s.len() as int);
    assert(s.subrange(0, s.len() as int) =~= s);
    if d.renamed@.len() > 0 {
        assert(renames_one_of(d.renamed@[0], only_in(s, s), only_in(s, s), 0));
    }
}

/// The counts of a key grow by one at each entry with that key.
proof fn lemma_count_key_grows(s: Seq<FileEntry>, k: FileEntry, m1: int, m2: int)
    requires
        0 <= m1 <= m2,
    ensures
        count_key(s, k, m1) <= count_key(s, k, m2),
        m1 < m2 && same_key(s[m1], k) ==> count_key(s, k, m1) < count_key(s, k, m2),
    decreases m2 - m1,
{
    if m1 < m2 {
        lemma_count_key_grows(s, k, m1, m2 - 1);
        if m1 < m2 - 1 {
            lemma_count_key_grows(s, k, m1 + 1, m2);
        }
    }
}

/// Keys with the same hash and mode are counted alike.
proof fn lemma_count_key_congruent(s: Seq<FileEntry>, k1: FileEntry, k2: FileEntry, m: int)
    requires
        same_key(k1, k2),
    ensures
        count_key(s, k1, m) == count_key(s, k2, m),
    decreases m,
{
    if m > 0 {
        lemma_count_key_congruent(s, k1, k2, m - 1);
    }
}

/// Below a key's count among the first `m` entries, every count is reached
/// at some entry with that key.
proof fn lemma_count_key_reached(s: Seq<FileEntry>, k: FileEntry, m: int, c: int)
    requires
        0 <= m <= s.len(),
        0 <= c < count_key(s, k, m),
    ensures
        exists|j: int| 0 <= j < m && same_key(#[trigger] s[j], k) && count_key(s, k, j) == c,
    decreases m,
{
    if count_key(s, k, m - 1) > c {
        lemma_count_key_reached(s, k, m - 1, c);
        let j = choose|j: int| 0 <= j < m - 1 && same_key(#[trigger] s[j], k) && count_key(s, k, j) == c;
        assert(0 <= j < m && same_key(s[j], k) && count_key(s, k, j) == c);
    } else {
        assert(same_key(s[m - 1], k) && count_key(s, k, m - 1) == c);
    }
}

/// The indices of `s` below `m` that are paired with `other`.
pub open spec fn paired_set(s: Seq<FileEntry>, other: Seq<FileEntry>, m: int) -> Set<int> {
    Set::new(|i: int| 0 <= i < m && paired(s, other, i))
}

/// Each of the first `m` entries is either paired or left unpaired.
proof fn lemma_unpaired_len(s: Seq<FileEntry>, other: Seq<FileEntry>, m: int)
    requires
        0 <= m,
    ensures
        paired_set(s, other, m).finite(),
        unpaired_prefix(s, other, m).len() + paired_set(s, other, m).len() == m,
    decreases m,
{
    if m == 0 {
        assert(paired_set(s, other, 0) =~= Set::<int>::empty());
    } else {
        lemma_unpaired_len(s, other, m - 1);
        if paired(s, other, m - 1) {
            assert(paired_set(s, other, m) =~= paired_set(s, other, m - 1).insert(m - 1));
        } else {
            assert(paired_set(s, other, m) =~= paired_set(s, other, m - 1));
        }
    }
}

/// The removed entry an added entry is paired with: same key, same place
/// among the entries of that key.
pub open spec fn partner(a: Seq<FileEntry>, r: Seq<FileEntry>, i: int, j: int) -> bool {
    0 <= j < r.len() && same_key(r[j], a[i]) && count_key(r, r[j], j) == count_key(a, a[i], i)
}

/// An entry is paired exactly when it has a partner on the other side.
proof fn lemma_partner_exists(a: Seq<FileEntry>, r: Seq<FileEntry>, i: int)
    requires
        0 <= i < a.len(),
        paired(a, r, i),
    ensures
        exists|j: int| #[trigger] partner(a, r, i, j) && paired(r, a, j),
{
    let c = count_key(a, a[i], i);
    lemma_count_key_reached(r, a[i], r.len() as int, c as int);
    let j = choose|j: int| 0 <= j < r.len() && same_key(#[trigger] r[j], a[i]) && count_key(r, a[i], j) == c;
    lemma_count_key_congruent(r, r[j], a[i], j);
    lemma_count_key_grows(a, a[i], i, a.len() as int);
    lemma_count_key_congruent(a, r[j], a[i], a.len() as int);
    assert(partner(a, r, i, j));
}

/// Two entries with the same key at the same place among that key's entries
/// are one entry.
proof fn lemma_place_unique(s: Seq<FileEntry>, j1: int, j2: int)
    requires
        0 <= j1 < s.len(),
        0 <= j2 < s.len(),
        same_key(s[j1], s[j2]),
        count_key(s, s[j1], j1) == count_key(s, s[j2], j2),
    ensures
        j1 == j2,
{
    lemma_count_key_congruent(s, s[j1], s[j2], j2);
    if j1 < j2 {
        lemma_count_key_grows(s, s[j1], j1, j2);
    } else if j2 < j1 {
        lemma_count_key_congruent(s, s[j1], s[j2], j1);
        lemma_count_key_grows(s, s[j2], j2, j1);
    }
}

/// As many added entries are paired as removed ones.
proof fn lemma_paired_balance(a: Seq<FileEntry>, r: Seq<FileEntry>)
    ensures
        paired_set(a, r, a.len() as int).len() == paired_set(r, a, r.len() as int).len(),
{
    let pa = paired_set(a, r, a.len() as int);
    let pr = paired_set(r, a, r.len() as int);
    lemma_unpaired_len(a, r, a.len() as int);
    let g = |i: int| choose|j: int| partner(a, r, i, j) && paired(r, a, j);
    assert forall|i: int| #[trigger] pa.contains(i) implies partner(a, r, i, g(i)) && paired(r, a, g(i)) by {
        lemma_partner_exists(a, r, i);
    }
    assert(injective_on(g, pa)) by {
        assert forall|i1: int, i2: int| pa.contains(i1) && pa.contains(i2) && #[trigger] g(i1) == #[trigger] g(i2) implies i1 == i2 by {
            let j = g(i1);
            lemma_count_key_congruent(a, a[i1], a[i2], i2);
            lemma_place_unique(a, i1, i2);
        }
    }
    assert(pa.map(g) =~= pr) by {
        assert forall|j: int| pr.contains(j) implies #[trigger] pa.map(g).contains(j) by {
            let c = count_key(r, r[j], j);
            lemma_count_key_reached(a, r[j], a.len() as int, c as int);
            let i = choose|i: int| 0 <= i < a.len() && same_key(#[trigger] a[i], r[j]) && count_key(a, r[j], i) == c;
            lemma_count_key_congruent(a, a[i], r[j], i);
            lemma_count_key_grows(r, r[j], j, r.len() as int);
            lemma_count_key_congruent(r, a[i], r[j], r.len() as int);
            assert(pa.contains(i));
            let j2 = g(i);
            lemma_count_key_congruent(r, r[j2], r[j], j2);
            lemma_place_unique(r, j, j2);
        }
        assert forall|j: int| #[trigger] pa.map(g).contains(j) implies pr.contains(j) by {
            let i = choose|i: int| pa.contains(i) && g(i) == j;
            assert(partner(a, r, i, g(i)) && paired(r, a, g(i)));
        }
    }
    lemma_map_size(pa, pr, g);
}

/// Renames correspond one to one to the paired added entries.
proof fn lemma_rename_count(rn: Seq<RenameEntry>, a: Seq<FileEntry>, r: Seq<FileEntry>)
    requires
        sorted_entries(a),
        renames_of(rn, a, r),
    ensures
        rn.len() == paired_set(a, r, a.len() as int).len(),
{
    let pa = paired_set(a, r, a.len() as int);
    let t_range = set_int_range(0, rn.len() as int);
    lemma_int_range(0, rn.len() as int);
    let f = |t: int| choose|i: int| 0 <= i < a.len() && is_rename_of(rn[t], a, r, i);
    assert forall|t: int| #[trigger] t_range.contains(t) implies is_rename_of(rn[t], a, r, f(t)) by {
        assert(renames_one_of(rn[t], a, r, a.len() as int));
    }
    assert forall|t: int, i: int| t_range.contains(t) && 0 <= i < a.len() && #[trigger] is_rename_of(rn[t], a, r, i) implies f(t) == i by {
        let k = f(t);
        if k != i {
            if k < i {
                assert(chars_lt(a[k].path@, a[i].path@));
            } else {
                assert(chars_lt(a[i].path@, a[k].path@));
            }
            lemma_chars_lt_irreflexive(a[i].path@);
        }
    }
    assert(injective_on(f, t_range)) by {
        assert forall|t1: int, t2: int| t_range.contains(t1) && t_range.contains(t2) && #[trigger] f(t1) == #[trigger] f(t2) implies t1 == t2 by {
            let x = rn[t1];
            let y = rn[t2];
            lemma_bytes_lt_irreflexive(x.hash@);
            lemma_chars_lt_irreflexive(x.to@);
            if t1 < t2 {
                assert(rename_lt(x, y));
            } else if t2 < t1 {
                assert(rename_lt(y, x));
            }
        }
    }
    assert(t_range.map(f) =~= pa) by {
        assert forall|i: int| pa.contains(i) implies #[trigger] t_range.map(f).contains(i) by {
            assert(listed(rn, a, r, i));
            let t = choose|t: int| 0 <= t < rn.len() && #[trigger] is_rename_of(rn[t], a, r, i);
            assert(t_range.contains(t));
            assert(f(t) == i);
        }
        assert forall|i: int| #[trigger] t_range.map(f).contains(i) implies pa.contains(i) by {
            let t = choose|t: int| t_range.contains(t) && f(t) == i;
            assert(is_rename_of(rn[t], a, r, f(t)));
        }
    }
    lemma_map_size(t_range, pa, f);
}

/// Each rename stands for one path only in the new snapshot and one only in
/// the old: the paths only in `new` are the added files and the rename
/// targets, the paths only in `old` the removed files and the rename
/// sources, so a diff's change count is the number of paths only in `new`,
/// plus those only in `old`, less the renames, plus the modified files.
pub proof fn lemma_change_count(o: Seq<FileEntry>, n: Seq<FileEntry>, d: SnapshotDiff)
    requires
        sorted_entries(o),
        sorted_entries(n),
        is_diff_of(d, o, n),
    ensures
        d.added@.len() + d.renamed@.len() == only_in(n, o).len(),
        d.removed@.len() + d.renamed@.len() == only_in(o, n).len(),
        d.added@.len() + d.modified@.len() + d.removed@.len() + d.renamed@.len() == only_in(n, o).len()
            + only_in(o, n).len() - d.renamed@.len() + d.modified@.len(),
{
    let a = only_in(n, o);
    let r = only_in(o, n);
    lemma_only_in(n, o);
    lemma_unpaired_len(a, r, a.len() as int);
    lemma_unpaired_len(r, a, r.len() as int);
    lemma_rename_count(d.renamed@, a, r);
    lemma_paired_balance(a, r);
}

/// Each old entry is at most one of: only in `o`, or changed.
proof fn lemma_old_side_bound(o: Seq<FileEntry>, n: Seq<FileEntry>)
    ensures
        only_in(o, n).len() + changed_pairs(o, n).len() <= o.len(),
        only_in(o, n).len() <= o.len(),
    decreases o.len(),
{
    if o.len() > 0 {
        lemma_old_side_bound(o.drop_last(), n);
    }
}

/// The entries `only_in` keeps have paths that `other` lacks.
proof fn lemma_only_in_absent(s: Seq<FileEntry>, other: Seq<FileEntry>)
    ensures
        forall|t: int| 0 <= t < only_in(s, other).len() ==> !has_path(other, #[trigger] only_in(s, other)[t].path@),
    decreases s.len(),
{
    if s.len() > 0 {
        lemma_only_in_absent(s.drop_last(), other);
        let r = only_in(s.drop_last(), other);
        let full = only_in(s, other);
        assert forall|t: int| 0 <= t < full.len() implies !has_path(other, #[trigger] full[t].path@) by {
            if t < r.len() {
                assert(full[t] == r[t]);
            }
        }
    }
}

/// An entry of a sorted sequence is what a lookup of its path finds.
proof fn lemma_member_lookup(s: Seq<FileEntry>, e: FileEntry)
    requires
        sorted_entries(s),
        exists|k: int| 0 <= k < s.len() && s[k] == e,
    ensures
        lookup_in(s, e.path@) == Some(e),
{
    let k = choose|k: int| 0 <= k < s.len() && s[k] == e;
    crate::model::snapshot::lemma_lookup_index(s, k);
}

/// A rename moves one file unchanged: its old path is in the old tree and
/// gone from the new one, its new path is in the new tree and was not in
/// the old one, and the file at each has the rename's content hash and
/// mode, so a change of content or of mode is never reported as a rename.
pub proof fn lemma_renames_keep_content_and_mode(o: Seq<FileEntry>, n: Seq<FileEntry>, d: SnapshotDiff)
    requires
        sorted_entries(o),
        sorted_entries(n),
        is_diff_of(d, o, n),
    ensures
        forall|t: int|
            0 <= t < d.renamed@.len() ==> {
                let x = #[trigger] d.renamed@[t];
                &&& lookup_in(o, x.from@) is Some
                &&& hash_of(lookup_in(o, x.from@)->0) == x.hash@
                &&& lookup_in(o, x.from@)->0.mode == x.mode
                &&& lookup_in(n, x.to@) is Some
                &&& hash_of(lookup_in(n, x.to@)->0) == x.hash@
                &&& lookup_in(n, x.to@)->0.mode == x.mode
                &&& lookup_in(n, x.from@) is None
                &&& lookup_in(o, x.to@) is None
            },
{
    let a = only_in(n, o);
    let r = only_in(o, n);
    lemma_only_in(n, o);
    lemma_only_in(o, n);
    lemma_only_in_absent(n, o);
    lemma_only_in_absent(o, n);
    assert forall|t: int| 0 <= t < d.renamed@.len() implies {
        let x = #[trigger] d.renamed@[t];
        &&& lookup_in(o, x.from@) is Some
        &&& hash_of(lookup_in(o, x.from@)->0) == x.hash@
        &&& lookup_in(o, x.from@)->0.mode == x.mode
        &&& lookup_in(n, x.to@) is Some
        &&& hash_of(lookup_in(n, x.to@)->0) == x.hash@
        &&& lookup_in(n, x.to@)->0.mode == x.mode
        &&& lookup_in(n, x.from@) is None
        &&& lookup_in(o, x.to@) is None
    } by {
        let x = d.renamed@[t];
        assert(renames_one_of(x, a, r, a.len() as int));
        let i = choose|i: int| 0 <= i < a.len() && #[trigger] is_rename_of(x, a, r, i);
        let j = choose|j: int|
            0 <= j < r.len() && same_key(#[trigger] r[j], a[i]) && count_key(r, r[j], j) == count_key(a, a[i], i)
                && x.from@ == r[j].path@;
        lemma_member_lookup(o, r[j]);
        lemma_member_lookup(n, a[i]);
        assert(!has_path(n, r[j].path@));
        assert(!has_path(o, a[i].path@));
    }
}

} // verus!

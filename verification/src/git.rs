//! What the library hands the git layer: the identity and message of a
//! commit to write.
use vstd::prelude::*;

use crate::model::commit::Signature;

verus! {

/// Identity and message used when creating a commit.
#[derive(Debug)]
pub struct CommitSpec {
    /// Commit message body.
    pub message: String,
    /// Author signature; the repository or user configuration when absent.
    pub author: Option<Signature>,
    /// Committer signature; the repository or user configuration when
    /// absent.
    pub committer: Option<Signature>,
}

impl CommitSpec {
    /// A spec with only a message.
    pub fn new(message: String) -> (r: CommitSpec)
        ensures
            r.message@ == message@,
            r.author is None,
            r.committer is None,
    {
        CommitSpec { message, author: None, committer: None }
    }
}

} // verus!

verus! {

/// Where the first `/` of `p` is, if it has one.
pub open spec fn slash_at(p: Seq<char>) -> Option<int> {
    crate::text::find_first(p, seq!['/'])
}

/// `p` names a file of this tree level: it has no `/`.
pub open spec fn is_level_file(p: Seq<char>) -> bool {
    slash_at(p) is None
}

/// `p` lies in the subtree `name` of this level.
pub open spec fn in_subtree(p: Seq<char>, name: Seq<char>) -> bool {
    match slash_at(p) {
        Some(k) => p.subrange(0, k) == name,
        None => false,
    }
}

/// The path of `p` inside its subtree.
pub open spec fn subtree_rest(p: Seq<char>) -> Seq<char> {
    match slash_at(p) {
        Some(k) => p.subrange(k + 1, p.len() as int),
        None => p,
    }
}

/// The file at `i` has the name of a subtree that an earlier path opened.
pub open spec fn file_after_subtree(ps: Seq<Seq<char>>, i: int) -> bool {
    is_level_file(ps[i]) && exists|j: int| 0 <= j < i && #[trigger] in_subtree(ps[j], ps[i])
}

/// The indices below `n` of the files of this level, in order.
pub open spec fn file_indices(ps: Seq<Seq<char>>, n: int) -> Seq<usize>
    decreases n,
{
    if n <= 0 {
        seq![]
    } else if is_level_file(ps[n - 1]) {
        file_indices(ps, n - 1).push((n - 1) as usize)
    } else {
        file_indices(ps, n - 1)
    }
}

/// The entries below `n` in the subtree `name`: their path inside it and
/// their index, in order.
pub open spec fn subtree_children(ps: Seq<Seq<char>>, name: Seq<char>, n: int) -> Seq<(Seq<char>, usize)>
    decreases n,
{
    if n <= 0 {
        seq![]
    } else if in_subtree(ps[n - 1], name) {
        subtree_children(ps, name, n - 1).push((subtree_rest(ps[n - 1]), (n - 1) as usize))
    } else {
        subtree_children(ps, name, n - 1)
    }
}

/// A subtree of one tree level.
#[derive(Debug)]
pub struct TreeDir {
    /// The subtree's name.
    pub name: String,
    /// Its entries: the path inside the subtree and the entry's index.
    pub children: Vec<(String, usize)>,
    /// A file of the level has the same name.
    pub clashes: bool,
}

/// One level of a tree to write: its files and its subtrees.
#[derive(Debug)]
pub struct TreeLevel {
    /// Indices of the entries that are files of this level, in order.
    pub files: Vec<usize>,
    /// The subtrees, ordered by name.
    pub dirs: Vec<TreeDir>,
}

/// The characters of subtree children.
pub open spec fn child_views(v: Seq<(String, usize)>) -> Seq<(Seq<char>, usize)> {
    v.map_values(|c: (String, usize)| (c.0@, c.1))
}

/// The names of subtrees.
pub open spec fn dir_names(v: Seq<TreeDir>) -> Seq<Seq<char>> {
    v.map_values(|d: TreeDir| d.name@)
}

/// Names in strictly increasing order.
pub open spec fn strictly_sorted(names: Seq<Seq<char>>) -> bool {
    forall|a: int, b: int| 0 <= a < b < names.len() ==> crate::text::chars_lt(#[trigger] names[a], #[trigger] names[b])
}

/// Some entry below `n` lies in the subtree `name`.
pub open spec fn opened(ps: Seq<Seq<char>>, name: Seq<char>, n: int) -> bool {
    exists|j: int| 0 <= j < n && #[trigger] in_subtree(ps[j], name)
}

/// Some subtree of `dirs` holds `p`.
pub open spec fn listed(dirs: Seq<TreeDir>, p: Seq<char>) -> bool {
    exists|d: int| 0 <= d < dirs.len() && #[trigger] in_subtree(p, dirs[d].name@)
}

/// What the subtrees of a level are after the entries below `n`: ordered
/// by name, one for each name that opens a subtree, each with its entries.
pub open spec fn dirs_after(ps: Seq<Seq<char>>, dirs: Seq<TreeDir>, n: int) -> bool {
    &&& strictly_sorted(dir_names(dirs))
    &&& forall|d: int| 0 <= d < dirs.len() ==> opened(ps, (#[trigger] dirs[d]).name@, n)
    &&& forall|j: int| 0 <= j < n && !is_level_file(ps[j]) ==> listed(dirs, #[trigger] ps[j])
    &&& forall|d: int| 0 <= d < dirs.len() ==> child_views((#[trigger] dirs[d]).children@) == subtree_children(ps, dirs[d].name@, n)
}

/// A file of the level (below `n`) has the name `name`.
pub open spec fn clash(ps: Seq<Seq<char>>, name: Seq<char>, n: int) -> bool {
    exists|j: int| 0 <= j < n && is_level_file(ps[j]) && #[trigger] ps[j] == name
}

proof fn lemma_file_indices(ps: Seq<Seq<char>>, n: int)
    requires
        0 <= n <= ps.len(),
        n <= usize::MAX,
    ensures
        forall|k: int| 0 <= k < file_indices(ps, n).len() ==> (#[trigger] file_indices(ps, n)[k]) < n
            && is_level_file(ps[file_indices(ps, n)[k] as int]),
        forall|j: int| 0 <= j < n && is_level_file(ps[j]) ==> file_indices(ps, n).contains(j as usize),
    decreases n,
{
    if n > 0 {
        lemma_file_indices(ps, n - 1);
        let prev = file_indices(ps, n - 1);
        let f = file_indices(ps, n);
        assert forall|k: int| 0 <= k < f.len() implies (#[trigger] f[k]) < n && is_level_file(ps[f[k] as int]) by {
            if k < prev.len() {
                assert(f[k] == prev[k]);
            }
        }
        assert forall|j: int| 0 <= j < n && is_level_file(ps[j]) implies file_indices(ps, n).contains(j as usize) by {
            if j < n - 1 {
                let k = choose|k: int| 0 <= k < prev.len() && prev[k] == j as usize;
                assert(file_indices(ps, n)[k] == prev[k]);
            } else {
                let f = file_indices(ps, n);
                assert(f[f.len() - 1] == j as usize);
            }
        }
    }
}

proof fn lemma_no_children(ps: Seq<Seq<char>>, name: Seq<char>, n: int)
    requires
        forall|j: int| 0 <= j < n ==> !#[trigger] in_subtree(ps[j], name),
    ensures
        subtree_children(ps, name, n) == Seq::<(Seq<char>, usize)>::empty(),
    decreases n,
{
    if n > 0 {
        lemma_no_children(ps, name, n - 1);
    }
}

fn locate_dir(dirs: &Vec<TreeDir>, name: &[char]) -> (r: (usize, bool))
    requires
        strictly_sorted(dir_names(dirs@)),
    ensures
        r.0 <= dirs@.len(),
        r.1 ==> r.0 < dirs@.len() && dirs@[r.0 as int].name@ == name@,
        !r.1 ==> (forall|d: int| 0 <= d < r.0 ==> crate::text::chars_lt(#[trigger] dirs@[d].name@, name@))
            && (forall|d: int| r.0 <= d < dirs@.len() ==> crate::text::chars_lt(name@, #[trigger] dirs@[d].name@)),
{
    let mut i: usize = 0;
    while i < dirs.len()
        invariant
            i <= dirs@.len(),
            strictly_sorted(dir_names(dirs@)),
            forall|d: int| 0 <= d < i ==> crate::text::chars_lt(#[trigger] dirs@[d].name@, name@),
        decreases dirs@.len() - i,
    {
        let c = crate::text::compare_chars(&crate::text::chars_of(dirs[i].name.as_str()), name);
        if c == 0 {
            return (i, true);
        }
        if c > 0 {
            proof {
                assert forall|d: int| i <= d < dirs@.len() implies crate::text::chars_lt(name@, #[trigger] dirs@[d].name@) by {
                    if d > i {
                        assert(dir_names(dirs@)[i as int] == dirs@[i as int].name@);
                        assert(dir_names(dirs@)[d] == dirs@[d].name@);
                        crate::text::lemma_chars_lt_transitive(name@, dirs@[i as int].name@, dirs@[d].name@);
                    }
                }
            }
            return (i, false);
        }
        i = i + 1;
    }
    (i, false)
}

/// Plans one level of a tree to write from the paths of its entries
/// (relative to the level): the entries without `/` are files of the level,
/// the others are grouped into subtrees by their first segment. A file whose
/// name a subtree already opened by an earlier entry is a conflict: the
/// index of the first such file is returned.
pub fn plan_tree_level(paths: &Vec<String>) -> (r: Result<TreeLevel, usize>)
    ensures
        match r {
            Err(i) => i < paths@.len() && file_after_subtree(crate::config::validate::texts(paths@), i as int)
                && forall|k: int| 0 <= k < i ==> !file_after_subtree(crate::config::validate::texts(paths@), k),
            Ok(level) => {
                let ps = crate::config::validate::texts(paths@);
                &&& forall|k: int| 0 <= k < paths@.len() ==> !file_after_subtree(ps, k)
                &&& level.files@ == file_indices(ps, paths@.len() as int)
                &&& dirs_after(ps, level.dirs@, paths@.len() as int)
                &&& forall|d: int| 0 <= d < level.dirs@.len() ==> (#[trigger] level.dirs@[d]).clashes == clash(ps, level.dirs@[d].name@, paths@.len() as int)
            },
        },
{
    let ghost ps = crate::config::validate::texts(paths@);
    let n = paths.len();
    let mut files: Vec<usize> = Vec::new();
    let mut dirs: Vec<TreeDir> = Vec::new();
    let mut sl: Vec<char> = Vec::new();
    sl.push('/');
    assert(sl@ =~= seq!['/']);
    let mut i: usize = 0;
    while i < n
        invariant
            n == paths@.len(),
            ps == crate::config::validate::texts(paths@),
            sl@ == seq!['/'],
            i <= n,
            forall|k: int| 0 <= k < i ==> !file_after_subtree(ps, k),
            files@ == file_indices(ps, i as int),
            dirs_after(ps, dirs@, i as int),
        decreases n - i,
    {
        let v = crate::text::chars_of(paths[i].as_str());
        assert(v@ == ps[i as int]);
        match crate::text::find_first_chars(&v, &sl) {
            Some(k) => {
                assert(crate::text::first_at(v@, seq!['/'], k as int));
                let vn = v.len();
                assert(crate::text::occurs_at(v@, seq!['/'], k as int));
                assert(k + 1 <= vn);
                let top = crate::text::sub_chars(&v, 0, k);
                let rest = crate::text::sub_chars(&v, k + 1, vn);
                assert(in_subtree(ps[i as int], top@));
                assert(subtree_rest(ps[i as int]) == rest@);
                let ghost old_dirs = dirs@;
                let (pos, found) = locate_dir(&dirs, &top);
                if found {
                    let mut d = dirs.remove(pos);
                    d.children.push((crate::text::string_of(&rest), i));
                    dirs.insert(pos, d);
                    proof {
                        assert(dirs@ =~= old_dirs.update(pos as int, d));
                        assert(dir_names(dirs@) =~= dir_names(old_dirs));
                        assert forall|e: int| 0 <= e < dirs@.len() implies opened(ps, (#[trigger] dirs@[e]).name@, i + 1) by {
                            assert(dirs@[e].name@ == old_dirs[e].name@);
                            assert(opened(ps, old_dirs[e].name@, i as int));
                            let j = choose|j: int| 0 <= j < i && #[trigger] in_subtree(ps[j], old_dirs[e].name@);
                            assert(in_subtree(ps[j], dirs@[e].name@));
                        }
                        assert forall|j: int| 0 <= j < i + 1 && !is_level_file(ps[j]) implies listed(dirs@, #[trigger] ps[j]) by {
                            if j < i {
                                assert(listed(old_dirs, ps[j]));
                                let e = choose|e: int| 0 <= e < old_dirs.len() && #[trigger] in_subtree(ps[j], old_dirs[e].name@);
                                assert(dirs@[e].name@ == old_dirs[e].name@);
                                assert(in_subtree(ps[j], dirs@[e].name@));
                            } else {
                                assert(in_subtree(ps[j], dirs@[pos as int].name@));
                            }
                        }
                        assert forall|e: int| 0 <= e < dirs@.len() implies child_views((#[trigger] dirs@[e]).children@) == subtree_children(ps, dirs@[e].name@, i + 1) by {
                            if e == pos {
                                assert(child_views(d.children@) =~= child_views(old_dirs[e].children@).push((rest@, i)));
                            } else {
                                assert(dirs@[e] == old_dirs[e]);
                                if in_subtree(ps[i as int], old_dirs[e].name@) {
                                    assert(old_dirs[e].name@ == top@);
                                    assert(dir_names(old_dirs)[e] == old_dirs[e].name@);
                                    assert(dir_names(old_dirs)[pos as int] == old_dirs[pos as int].name@);
                                    crate::text::lemma_chars_lt_irreflexive(top@);
                                }
                            }
                        }
                    }
                } else {
                    let mut children: Vec<(String, usize)> = Vec::new();
                    children.push((crate::text::string_of(&rest), i));
                    let nd = TreeDir { name: crate::text::string_of(&top), children, clashes: false };
                    dirs.insert(pos, nd);
                    proof {
                        assert(dirs@ =~= old_dirs.insert(pos as int, nd));
                        assert(dir_names(dirs@) =~= dir_names(old_dirs).insert(pos as int, top@));
                        assert forall|a: int, b: int| 0 <= a < b < dir_names(dirs@).len() implies crate::text::chars_lt(#[trigger] dir_names(dirs@)[a], #[trigger] dir_names(dirs@)[b]) by {
                            let on = dir_names(old_dirs);
                            if b < pos {
                                assert(crate::text::chars_lt(on[a], on[b]));
                            } else if b == pos {
                                assert(dir_names(dirs@)[a] == old_dirs[a].name@);
                            } else if a < pos {
                                assert(dir_names(dirs@)[a] == old_dirs[a].name@);
                                assert(dir_names(dirs@)[b] == old_dirs[b - 1].name@);
                                crate::text::lemma_chars_lt_transitive(old_dirs[a].name@, top@, old_dirs[b - 1].name@);
                            } else if a == pos {
                                assert(dir_names(dirs@)[b] == old_dirs[b - 1].name@);
                            } else {
                                assert(crate::text::chars_lt(on[a - 1], on[b - 1]));
                            }
                        }
                        assert forall|j: int| 0 <= j < i implies !#[trigger] in_subtree(ps[j], top@) by {
                            if in_subtree(ps[j], top@) {
                                assert(listed(old_dirs, ps[j]));
                                let e = choose|e: int| 0 <= e < old_dirs.len() && #[trigger] in_subtree(ps[j], old_dirs[e].name@);
                                assert(old_dirs[e].name@ == top@);
                                if e < pos {
                                    crate::text::lemma_chars_lt_irreflexive(top@);
                                } else {
                                    crate::text::lemma_chars_lt_irreflexive(top@);
                                }
                            }
                        }
                        lemma_no_children(ps, top@, i as int);
                        assert forall|e: int| 0 <= e < dirs@.len() implies opened(ps, (#[trigger] dirs@[e]).name@, i + 1) by {
                            if e == pos {
                                assert(in_subtree(ps[i as int], dirs@[e].name@));
                            } else {
                                let oe = if e < pos { e } else { e - 1 };
                                assert(dirs@[e] == old_dirs[oe]);
                                assert(opened(ps, old_dirs[oe].name@, i as int));
                                let j = choose|j: int| 0 <= j < i && #[trigger] in_subtree(ps[j], old_dirs[oe].name@);
                                assert(in_subtree(ps[j], dirs@[e].name@));
                            }
                        }
                        assert forall|j: int| 0 <= j < i + 1 && !is_level_file(ps[j]) implies listed(dirs@, #[trigger] ps[j]) by {
                            if j < i {
                                assert(listed(old_dirs, ps[j]));
                                let e = choose|e: int| 0 <= e < old_dirs.len() && #[trigger] in_subtree(ps[j], old_dirs[e].name@);
                                let ne = if e < pos { e } else { e + 1 };
                                assert(dirs@[ne] == old_dirs[e]);
                                assert(in_subtree(ps[j], dirs@[ne].name@));
                            } else {
                                assert(in_subtree(ps[j], dirs@[pos as int].name@));
                            }
                        }
                        assert forall|e: int| 0 <= e < dirs@.len() implies child_views((#[trigger] dirs@[e]).children@) == subtree_children(ps, dirs@[e].name@, i + 1) by {
                            if e == pos {
                                assert(child_views(nd.children@) =~= seq![(rest@, i)]);
                                assert(subtree_children(ps, top@, i + 1) =~= Seq::<(Seq<char>, usize)>::empty().push((rest@, i)));
                            } else {
                                let oe = if e < pos { e } else { e - 1 };
                                assert(dirs@[e] == old_dirs[oe]);
                                if in_subtree(ps[i as int], old_dirs[oe].name@) {
                                    assert(old_dirs[oe].name@ == top@);
                                    crate::text::lemma_chars_lt_irreflexive(top@);
                                }
                            }
                        }
                    }
                }
                proof {
                    assert(!is_level_file(ps[i as int]));
                    assert(!file_after_subtree(ps, i as int));
                }
            },
            None => {
                assert(is_level_file(ps[i as int]));
                let (pos, found) = locate_dir(&dirs, &v);
                if found {
                    proof {
                        assert(opened(ps, dirs@[pos as int].name@, i as int));
                        let j = choose|j: int| 0 <= j < i && #[trigger] in_subtree(ps[j], dirs@[pos as int].name@);
                        assert(in_subtree(ps[j], ps[i as int]));
                        assert(file_after_subtree(ps, i as int));
                    }
                    return Err(i);
                }
                proof {
                    assert(!file_after_subtree(ps, i as int)) by {
                        if file_after_subtree(ps, i as int) {
                            let j = choose|j: int| 0 <= j < i && #[trigger] in_subtree(ps[j], ps[i as int]);
                            assert(!is_level_file(ps[j]));
                            assert(listed(dirs@, ps[j]));
                            let e = choose|e: int| 0 <= e < dirs@.len() && #[trigger] in_subtree(ps[j], dirs@[e].name@);
                            assert(dirs@[e].name@ == v@);
                            crate::text::lemma_chars_lt_irreflexive(v@);
                        }
                    }
                    assert forall|e: int| 0 <= e < dirs@.len() implies child_views((#[trigger] dirs@[e]).children@) == subtree_children(ps, dirs@[e].name@, i + 1) by {
                        assert(!in_subtree(ps[i as int], dirs@[e].name@));
                    }
                    assert forall|e: int| 0 <= e < dirs@.len() implies opened(ps, (#[trigger] dirs@[e]).name@, i + 1) by {
                        assert(opened(ps, dirs@[e].name@, i as int));
                        let j = choose|j: int| 0 <= j < i && #[trigger] in_subtree(ps[j], dirs@[e].name@);
                    }
                }
                files.push(i);
            },
        }
        i = i + 1;
    }
    proof {
        lemma_file_indices(ps, n as int);
    }
    let mut e: usize = 0;
    while e < dirs.len()
        invariant
            n == paths@.len(),
            ps == crate::config::validate::texts(paths@),
            files@ == file_indices(ps, n as int),
            e <= dirs@.len(),
            dirs_after(ps, dirs@, n as int),
            forall|d: int| 0 <= d < e ==> (#[trigger] dirs@[d]).clashes == clash(ps, dirs@[d].name@, n as int),
            forall|k: int| 0 <= k < files@.len() ==> (#[trigger] files@[k]) < n && is_level_file(ps[files@[k] as int]),
            forall|j: int| 0 <= j < n && is_level_file(ps[j]) ==> files@.contains(j as usize),
        decreases dirs@.len() - e,
    {
        let name = crate::text::chars_of(dirs[e].name.as_str());
        let mut found = false;
        let mut f: usize = 0;
        while f < files.len()
            invariant
                n == paths@.len(),
                ps == crate::config::validate::texts(paths@),
                f <= files@.len(),
                forall|k: int| 0 <= k < files@.len() ==> (#[trigger] files@[k]) < n && is_level_file(ps[files@[k] as int]),
                found == exists|m: int| 0 <= m < f && ps[#[trigger] files@[m] as int] == name@,
            decreases files@.len() - f,
        {
            let fi = files[f];
            if crate::text::chars_eq(&crate::text::chars_of(paths[fi].as_str()), &name) {
                found = true;
            }
            f = f + 1;
        }
        proof {
            if found {
                let m = choose|m: int| 0 <= m < files@.len() && ps[#[trigger] files@[m] as int] == name@;
                let j = files@[m] as int;
                assert(is_level_file(ps[j]) && ps[j] == name@);
            } else {
                if clash(ps, name@, n as int) {
                    let j = choose|j: int| 0 <= j < n && is_level_file(ps[j]) && #[trigger] ps[j] == name@;
                    assert(files@.contains(j as usize));
                    let m = choose|m: int| 0 <= m < files@.len() && files@[m] == j as usize;
                    assert(ps[files@[m] as int] == name@);
                }
            }
        }
        let ghost before = dirs@;
        dirs[e].clashes = found;
        proof {
            assert(dirs@ =~= before.update(e as int, dirs@[e as int]));
            assert(dir_names(dirs@) =~= dir_names(before));
            assert forall|d: int| 0 <= d < dirs@.len() implies opened(ps, (#[trigger] dirs@[d]).name@, n as int) by {
                assert(dirs@[d].name@ == before[d].name@);
                assert(opened(ps, before[d].name@, n as int));
            }
            assert forall|j: int| 0 <= j < n && !is_level_file(ps[j]) implies listed(dirs@, #[trigger] ps[j]) by {
                assert(listed(before, ps[j]));
                let x = choose|x: int| 0 <= x < before.len() && #[trigger] in_subtree(ps[j], before[x].name@);
                assert(dirs@[x].name@ == before[x].name@);
                assert(in_subtree(ps[j], dirs@[x].name@));
            }
            assert forall|d: int| 0 <= d < dirs@.len() implies child_views((#[trigger] dirs@[d]).children@) == subtree_children(ps, dirs@[d].name@, n as int) by {
                assert(dirs@[d].children == before[d].children);
                assert(dirs@[d].name == before[d].name);
            }
        }
        e = e + 1;
    }
    Ok(TreeLevel { files, dirs })
}

} // verus!

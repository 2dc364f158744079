//! Validated, `/`-separated relative repository paths.
use vstd::prelude::*;

use crate::model::error::Error;
use crate::text::{chars_lt, chars_of, compare_chars, concat_chars, string_of, sub_chars};

verus! {


/// A segment of `s` starts at `j` and is empty (`//`, or a trailing `/`).
pub open spec fn empty_segment_at(s: Seq<char>, j: int) -> bool {
    0 < j <= s.len() && s[j - 1] == '/' && (j == s.len() || s[j] == '/')
}

/// A segment of `s` starts at `j` and is `.` or `..`.
pub open spec fn dot_segment_at(s: Seq<char>, j: int) -> bool {
    &&& 0 <= j < s.len()
    &&& (j == 0 || s[j - 1] == '/')
    &&& s[j] == '.'
    &&& ((j + 1 == s.len() || s[j + 1] == '/') || (s[j + 1] == '.' && (j + 2 == s.len() || s[j
        + 2] == '/')))
}

/// The segment starting at `j` is not allowed in a path.
pub open spec fn bad_segment_at(s: Seq<char>, j: int) -> bool {
    empty_segment_at(s, j) || dot_segment_at(s, j)
}

/// The path invariants: non-empty, relative, no NUL byte, and no empty, `.`
/// or `..` segment.
pub open spec fn valid_path(s: Seq<char>) -> bool {
    &&& s.len() > 0
    &&& s[0] != '/'
    &&& !s.contains('\0')
    &&& forall|j: int| 0 <= j <= s.len() ==> !bad_segment_at(s, j)
}

/// `j` is where the first offending segment of `s` starts.
pub open spec fn first_bad_segment(s: Seq<char>, j: int) -> bool {
    0 <= j <= s.len() && bad_segment_at(s, j) && forall|k: int| 0 <= k < j ==> !bad_segment_at(s, k)
}

/// The reason a path is rejected, in the order the checks run, or `None`
/// for a valid path.
pub open spec fn path_problem(s: Seq<char>) -> Option<Seq<char>> {
    if s.len() == 0 {
        Some("path must not be empty"@)
    } else if s[0] == '/' {
        Some("path must be relative"@)
    } else if s.contains('\0') {
        Some("path must not contain NUL bytes"@)
    } else if exists|j: int| first_bad_segment(s, j) {
        let j = choose|j: int| first_bad_segment(s, j);
        if empty_segment_at(s, j) {
            Some("path must not contain empty segments"@)
        } else {
            Some("path must not contain '.' or '..' segments"@)
        }
    } else {
        None
    }
}

/// Index of the last `/` in `s`, or -1 when there is none.
pub open spec fn last_slash(s: Seq<char>) -> int
    decreases s.len(),
{
    if s.len() == 0 {
        -1
    } else if s.last() == '/' {
        s.len() - 1
    } else {
        last_slash(s.drop_last())
    }
}

/// `s` with its leading `/` characters removed.
pub open spec fn strip_leading_slashes(s: Seq<char>) -> Seq<char>
    decreases s.len(),
{
    if s.len() > 0 && s[0] == '/' {
        strip_leading_slashes(s.drop_first())
    } else {
        s
    }
}

/// A validated repository path.
#[derive(Debug, PartialEq, Eq, PartialOrd, Ord, Hash)]
pub struct RepoPath {
    inner: String,
}

impl View for RepoPath {
    type V = Seq<char>;

    closed spec fn view(&self) -> Seq<char> {
        self.inner@
    }
}

impl Clone for RepoPath {
    fn clone(&self) -> (r: Self)
        ensures
            r@ == self@,
    {
        proof {
            use_type_invariant(self);
        }
        RepoPath { inner: self.inner.clone() }
    }
}

/// Checks a path against the path invariants.
fn validate(v: &[char]) -> (r: Result<(), &'static str>)
    ensures
        match r {
            Ok(()) => path_problem(v@) is None,
            Err(reason) => path_problem(v@) == Some(reason@),
        },
{
    let n = v.len();
    if n == 0 {
        return Err("path must not be empty");
    }
    if v[0] == '/' {
        return Err("path must be relative");
    }
    let mut i: usize = 0;
    while i < n
        invariant
            n == v@.len(),
            n > 0,
            v@[0] != '/',
            i <= n,
            forall|k: int| 0 <= k < i ==> v@[k] != '\0',
        decreases n - i,
    {
        if v[i] == '\0' {
            assert(v@.contains('\0')) by {
                assert(v@[i as int] == '\0');
            }
            return Err("path must not contain NUL bytes");
        }
        i = i + 1;
    }
    assert(!v@.contains('\0'));
    let mut j: usize = 0;
    while j < n
        invariant
            n == v@.len(),
            n > 0,
            v@[0] != '/',
            !v@.contains('\0'),
            j <= n,
            forall|k: int| 0 <= k < j ==> !bad_segment_at(v@, k),
        decreases n - j,
    {
        let starts = j == 0 || v[j - 1] == '/';
        if starts {
            let empty = v[j] == '/';
            if empty {
                assert(first_bad_segment(v@, j as int));
                assert(j > 0);
                return Err("path must not contain empty segments");
            }
            let dot = v[j] == '.' && (j + 1 == n || v[j + 1] == '/' || (v[j + 1] == '.' && (j + 2
                == n || v[j + 2] == '/')));
            if dot {
                assert(first_bad_segment(v@, j as int));
                assert(!empty_segment_at(v@, j as int));
                return Err("path must not contain '.' or '..' segments");
            }
        }
        assert(!bad_segment_at(v@, j as int));
        j = j + 1;
    }
    if v[n - 1] == '/' {
        assert(first_bad_segment(v@, n as int));
        return Err("path must not contain empty segments");
    }
    assert(!bad_segment_at(v@, n as int));
    assert(!exists|j: int| first_bad_segment(v@, j));
    Ok(())
}

impl RepoPath {
    #[verifier::type_invariant]
    spec fn inv(self) -> bool {
        valid_path(self.inner@)
    }

    /// Creates a path after validating it against the path invariants.
    pub fn new(path: String) -> (r: Result<RepoPath, Error>)
        ensures
            match r {
                Ok(p) => path_problem(path@) is None && p@ == path@,
                Err(Error::InvalidPath(s, reason)) => path_problem(path@) == Some(reason@) && s@
                    == path@,
                Err(_) => false,
            },
            r is Ok <==> valid_path(path@),
    {
        let chars = chars_of(path.as_str());
        match validate(&chars) {
            Ok(()) => {
                proof {
                    lemma_problem_iff_invalid(path@);
                }
                Ok(RepoPath { inner: path })
            },
            Err(reason) => {
                proof {
                    lemma_problem_iff_invalid(path@);
                }
                Err(Error::InvalidPath(path, reason))
            },
        }
    }

    /// Three-way comparison in path order: negative, zero or positive as
    /// `self` precedes, equals, or follows `other`.
    pub fn compare(&self, other: &RepoPath) -> (r: i8)
        ensures
            r < 0 <==> chars_lt(self@, other@),
            r == 0 <==> self@ == other@,
            r > 0 <==> chars_lt(other@, self@),
    {
        let a = chars_of(self.inner.as_str());
        let b = chars_of(other.inner.as_str());
        compare_chars(&a, &b)
    }

    /// Returns the path as a string slice; it meets the path invariants.
    pub fn as_str(&self) -> (r: &str)
        ensures
            r@ == self@,
            valid_path(r@),
    {
        proof {
            use_type_invariant(self);
        }
        self.inner.as_str()
    }

    /// Returns the parent path (everything before the last `/`), or `None`
    /// when the path has a single segment.
    pub fn parent(&self) -> (r: Option<RepoPath>)
        ensures
            last_slash(self@) < 0 ==> r is None,
            last_slash(self@) >= 0 ==> r is Some && r->0@ == self@.subrange(0, last_slash(self@)),
            r matches Some(q) ==> valid_path(q@),
    {
        proof {
            use_type_invariant(self);
        }
        let v = chars_of(self.inner.as_str());
        let k = last_slash_index(&v);
        match k {
            None => None,
            Some(k) => {
                let prefix = sub_chars(&v, 0, k);
                proof {
                    lemma_prefix_valid(v@, k as int);
                }
                Some(RepoPath { inner: string_of(&prefix) })
            },
        }
    }

    /// Returns the final path segment.
    pub fn file_name(&self) -> (r: String)
        ensures
            r@ == self@.subrange(last_slash(self@) + 1, self@.len() as int),
    {
        let v = chars_of(self.inner.as_str());
        let k = last_slash_index(&v);
        let start = match k {
            None => 0,
            Some(k) => {
                assert(k < v.len());
                k + 1
            },
        };
        string_of(&sub_chars(&v, start, v.len()))
    }

    /// Joins a relative segment (or nested path) onto this path. Leading `/`
    /// characters of `other` are stripped; joining the empty string gives a
    /// copy of the path.
    pub fn join(&self, other: &str) -> (r: Result<RepoPath, Error>)
        ensures
            other@.len() == 0 ==> r is Ok && r->Ok_0@ == self@,
            other@.len() > 0 ==> {
                let joined = self@ + seq!['/'] + strip_leading_slashes(other@);
                &&& (r is Ok <==> valid_path(joined))
                &&& r matches Ok(p) ==> p@ == joined
                &&& r matches Err(Error::InvalidPath(s, reason)) ==> s@ == joined && path_problem(
                    joined,
                ) == Some(reason@)
            },
    {
        proof {
            use_type_invariant(self);
        }
        let o = chars_of(other);
        if o.len() == 0 {
            return Ok(self.clone());
        }
        let stripped = strip_slashes(&o);
        let base = chars_of(self.inner.as_str());
        let with_sep = concat_chars(&base, &['/']);
        let joined = concat_chars(&with_sep, &stripped);
        proof {
            assert(with_sep@ =~= self@ + seq!['/']);
        }
        RepoPath::new(string_of(&joined))
    }
}

/// Index of the last `/`, matching [`last_slash`].
fn last_slash_index(v: &[char]) -> (r: Option<usize>)
    ensures
        match r {
            None => last_slash(v@) == -1,
            Some(k) => last_slash(v@) == k && k < v@.len(),
        },
{
    let mut j: usize = v.len();
    assert(v@.subrange(0, v@.len() as int) =~= v@);
    while j > 0
        invariant
            j <= v@.len(),
            last_slash(v@) == last_slash(v@.subrange(0, j as int)),
        decreases j,
    {
        if v[j - 1] == '/' {
            return Some(j - 1);
        }
        assert(v@.subrange(0, j as int).drop_last() =~= v@.subrange(0, j - 1));
        j = j - 1;
    }
    None
}

proof fn lemma_last_slash_props(s: Seq<char>)
    ensures
        -1 <= last_slash(s) < s.len(),
        last_slash(s) >= 0 ==> s[last_slash(s)] == '/',
        forall|i: int| last_slash(s) < i < s.len() ==> s[i] != '/',
    decreases s.len(),
{
    if s.len() > 0 && s.last() != '/' {
        lemma_last_slash_props(s.drop_last());
        assert forall|i: int| last_slash(s) < i < s.len() implies s[i] != '/' by {
            if i < s.len() - 1 {
                assert(s.drop_last()[i] == s[i]);
            }
        }
    }
}

/// Executable form of [`strip_leading_slashes`].
fn strip_slashes(v: &[char]) -> (r: Vec<char>)
    ensures
        r@ == strip_leading_slashes(v@),
{
    let mut i: usize = 0;
    assert(v@.subrange(0, v@.len() as int) =~= v@);
    while i < v.len() && v[i] == '/'
        invariant
            i <= v@.len(),
            strip_leading_slashes(v@) == strip_leading_slashes(v@.subrange(i as int, v@.len() as int)),
        decreases v@.len() - i,
    {
        assert(v@.subrange(i as int, v@.len() as int).drop_first() =~= v@.subrange(i + 1, v@.len() as int));
        i = i + 1;
    }
    sub_chars(v, i, v.len())
}

proof fn lemma_problem_iff_invalid(s: Seq<char>)
    ensures
        path_problem(s) is None <==> valid_path(s),
{
    if s.len() > 0 && s[0] != '/' && !s.contains('\0') {
        if !valid_path(s) {
            let j0 = choose|j: int| 0 <= j <= s.len() && bad_segment_at(s, j);
            lemma_first_bad_exists(s, j0);
        }
    }
}

proof fn lemma_first_bad_exists(s: Seq<char>, j0: int)
    requires
        0 <= j0 <= s.len(),
        bad_segment_at(s, j0),
    ensures
        exists|j: int| first_bad_segment(s, j),
    decreases j0,
{
    if exists|k: int| 0 <= k < j0 && bad_segment_at(s, k) {
        let k = choose|k: int| 0 <= k < j0 && bad_segment_at(s, k);
        lemma_first_bad_exists(s, k);
    } else {
        assert(first_bad_segment(s, j0));
    }
}

/// The part of a valid path before its last `/` is a valid path.
proof fn lemma_prefix_valid(s: Seq<char>, k: int)
    requires
        valid_path(s),
        k == last_slash(s),
        k >= 0,
    ensures
        valid_path(s.subrange(0, k)),
{
    lemma_last_slash_props(s);
    let p = s.subrange(0, k);
    assert(k > 0) by {
        if k == 0 {
            assert(s[0] == '/');
        }
    }
    assert forall|j: int| 0 <= j <= p.len() implies !bad_segment_at(p, j) by {
        assert(!bad_segment_at(s, j));
        if j < k {
            assert(p[j] == s[j]);
        }
        if j + 1 < k {
            assert(p[j + 1] == s[j + 1]);
        }
        if j + 2 < k {
            assert(p[j + 2] == s[j + 2]);
        }
        if j > 0 {
            assert(p[j - 1] == s[j - 1]);
        }
    }
    assert(!p.contains('\0')) by {
        if p.contains('\0') {
            let i = choose|i: int| 0 <= i < p.len() && p[i] == '\0';
            assert(s[i] == '\0');
        }
    }
}

/// A path with a parent is its parent joined with its file name: what
/// `parent` and `file_name` split off, `join` puts back together.
pub proof fn lemma_parent_join_file_name(p: Seq<char>)
    requires
        valid_path(p),
        last_slash(p) >= 0,
    ensures
        p.subrange(last_slash(p) + 1, p.len() as int).len() > 0,
        p.subrange(0, last_slash(p)) + seq!['/'] + strip_leading_slashes(p.subrange(last_slash(p) + 1, p.len() as int)) == p,
{
    lemma_last_slash_props(p);
    let k = last_slash(p);
    let name = p.subrange(k + 1, p.len() as int);
    assert(!bad_segment_at(p, k + 1));
    assert(name.len() > 0);
    assert(name[0] == p[k + 1]);
    assert(strip_leading_slashes(name) == name);
    assert(p.subrange(0, k) + seq!['/'] + name =~= p);
}

} // verus!

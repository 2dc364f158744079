//! Safety policy checks run before a pipeline writes to its destination:
//! denied paths, paths that need review, and a limit on deletions.
//!
//! Patterns are globs over repository paths: `?` matches one character
//! other than `/`, `*` any run of characters other than `/`, `**` any run
//! of characters, `/` included, and `**/` at the start of a segment also no
//! directory at all. This glob syntax is the library's own, defined and
//! proved here: a `**/` matches no directory only where the path is at the
//! start of a segment, every other character (`[`, `]`, `{` and `}`
//! included) matches itself, and so no pattern is ever rejected.
use vstd::prelude::*;

use crate::config::schema::Policy;
use crate::diff::SnapshotDiff;
use crate::model::path::RepoPath;
use crate::model::snapshot::RepositorySnapshot;
use crate::text::{chars_of, string_of};

verus! {

/// The pattern from position `i` matches the text from position `j`. A
/// `**/` may match no directory only where a path segment begins.
pub open spec fn glob_from(p: Seq<char>, t: Seq<char>, i: int, j: int) -> bool
    decreases (p.len() - i) + (t.len() - j),
{
    if i < 0 || j < 0 || i > p.len() || j > t.len() {
        false
    } else if i == p.len() {
        j == t.len()
    } else if i + 1 < p.len() && p[i] == '*' && p[i + 1] == '*' {
        (i + 2 < p.len() && p[i + 2] == '/' && (j == 0 || t[j - 1] == '/') && glob_from(p, t, i + 3, j))
            || glob_from(p, t, i + 2, j)
            || (j < t.len() && glob_from(p, t, i, j + 1))
    } else if p[i] == '*' {
        glob_from(p, t, i + 1, j) || (j < t.len() && t[j] != '/' && glob_from(p, t, i, j + 1))
    } else if p[i] == '?' {
        j < t.len() && t[j] != '/' && glob_from(p, t, i + 1, j + 1)
    } else {
        j < t.len() && t[j] == p[i] && glob_from(p, t, i + 1, j + 1)
    }
}

/// `p` matches the whole of `t`.
pub open spec fn glob_match(p: Seq<char>, t: Seq<char>) -> bool {
    glob_from(p, t, 0, 0)
}

/// A match of `p` against `s` carries over to longer patterns and texts:
/// when `p + r` (with `r` starting at a `/`) matches `s + u` from where `p`
/// and `s` end, it matches from any position that `p` matches `s` from.
proof fn lemma_glob_extend(p: Seq<char>, r: Seq<char>, s: Seq<char>, u: Seq<char>, i: int, j: int)
    requires
        r.len() > 0,
        r[0] == '/',
        glob_from(p, s, i, j),
        glob_from(p + r, s + u, p.len() as int, s.len() as int),
    ensures
        glob_from(p + r, s + u, i, j),
    decreases (p.len() - i) + (s.len() - j),
{
    let pp = p + r;
    let ss = s + u;
    if i == p.len() {
    } else if i + 1 < p.len() && p[i] == '*' && p[i + 1] == '*' {
        assert(pp[i] == '*' && pp[i + 1] == '*');
        if i + 2 < p.len() && p[i + 2] == '/' && (j == 0 || s[j - 1] == '/') && glob_from(p, s, i + 3, j) {
            lemma_glob_extend(p, r, s, u, i + 3, j);
            assert(pp[i + 2] == '/');
            if j > 0 {
                assert(ss[j - 1] == s[j - 1]);
            }
        } else if glob_from(p, s, i + 2, j) {
            lemma_glob_extend(p, r, s, u, i + 2, j);
        } else {
            lemma_glob_extend(p, r, s, u, i, j + 1);
        }
    } else if p[i] == '*' {
        assert(pp[i] == '*');
        assert(!(i + 1 < pp.len() && pp[i + 1] == '*')) by {
            if i + 1 < p.len() {
                assert(pp[i + 1] == p[i + 1]);
            } else {
                assert(pp[i + 1] == r[0]);
            }
        }
        if glob_from(p, s, i + 1, j) {
            lemma_glob_extend(p, r, s, u, i + 1, j);
        } else {
            assert(ss[j] == s[j]);
            lemma_glob_extend(p, r, s, u, i, j + 1);
        }
    } else {
        assert(pp[i] == p[i]);
        assert(!(i + 1 < pp.len() && pp[i] == '*' && pp[i + 1] == '*'));
        assert(ss[j] == s[j]);
        lemma_glob_extend(p, r, s, u, i + 1, j + 1);
    }
}

/// A match of `q` against `t` holds as well after any prefixes, provided the
/// text's prefix ends a segment (is empty or ends with `/`).
proof fn lemma_glob_shift(x: Seq<char>, q: Seq<char>, y: Seq<char>, t: Seq<char>, i: int, j: int)
    requires
        y.len() == 0 || y.last() == '/',
        glob_from(q, t, i, j),
    ensures
        glob_from(x + q, y + t, x.len() + i, y.len() + j),
    decreases (q.len() - i) + (t.len() - j),
{
    let pp = x + q;
    let ss = y + t;
    let pi = x.len() + i;
    let tj = y.len() + j;
    if i == q.len() {
    } else {
        assert(pp[pi] == q[i]);
        if i + 1 < q.len() {
            assert(pp[pi + 1] == q[i + 1]);
        }
        if i + 2 < q.len() {
            assert(pp[pi + 2] == q[i + 2]);
        }
        if j < t.len() {
            assert(ss[tj] == t[j]);
        }
        if j > 0 {
            assert(ss[tj - 1] == t[j - 1]);
        } else if y.len() > 0 {
            assert(ss[tj - 1] == y.last());
        }
        if i + 1 < q.len() && q[i] == '*' && q[i + 1] == '*' {
            if i + 2 < q.len() && q[i + 2] == '/' && (j == 0 || t[j - 1] == '/') && glob_from(q, t, i + 3, j) {
                lemma_glob_shift(x, q, y, t, i + 3, j);
            } else if glob_from(q, t, i + 2, j) {
                lemma_glob_shift(x, q, y, t, i + 2, j);
            } else {
                lemma_glob_shift(x, q, y, t, i, j + 1);
            }
        } else if q[i] == '*' {
            if glob_from(q, t, i + 1, j) {
                lemma_glob_shift(x, q, y, t, i + 1, j);
            } else {
                lemma_glob_shift(x, q, y, t, i, j + 1);
            }
        } else {
            lemma_glob_shift(x, q, y, t, i + 1, j + 1);
        }
    }
}

/// A `**/` that begins a path segment may stand for no directory at all:
/// where `p` matches `s` and `q` matches `t`, `p/**/q` matches `s/t`, and
/// `**/q` matches `t` itself. So `docs/**/README.md` matches
/// `docs/README.md`.
pub proof fn lemma_globstar_matches_no_directory(p: Seq<char>, q: Seq<char>, s: Seq<char>, t: Seq<char>)
    requires
        glob_match(q, t),
    ensures
        glob_match(seq!['*', '*', '/'] + q, t),
        glob_match(p, s) ==> glob_match(p + seq!['/', '*', '*', '/'] + q, s + seq!['/'] + t),
{
    let star = seq!['*', '*', '/'];
    lemma_glob_shift(star, q, Seq::<char>::empty(), t, 0, 0);
    assert(Seq::<char>::empty() + t =~= t);
    assert((star + q)[0] == '*' && (star + q)[1] == '*' && (star + q)[2] == '/');
    if glob_match(p, s) {
        let x = p + seq!['/', '*', '*', '/'];
        let y = s + seq!['/'];
        let r = seq!['/', '*', '*', '/'] + q;
        let u = seq!['/'] + t;
        assert(x + q =~= p + r);
        assert(y + t =~= s + u);
        assert(p + seq!['/', '*', '*', '/'] + q =~= p + r);
        assert(s + seq!['/'] + t =~= s + u);
        lemma_glob_shift(x, q, y, t, 0, 0);
        let pp = p + r;
        let ss = s + u;
        let k = p.len() as int;
        let m = s.len() as int;
        assert(pp[k] == '/' && pp[k + 1] == '*' && pp[k + 2] == '*' && pp[k + 3] == '/');
        assert(ss[m] == '/');
        assert(glob_from(pp, ss, k + 4, m + 1));
        assert(glob_from(pp, ss, k + 1, m + 1));
        assert(glob_from(pp, ss, k, m));
        lemma_glob_extend(p, r, s, u, 0, 0);
    }
}

/// Whether the glob `pattern` matches the whole of `text`.
pub fn glob_matches(pattern: &[char], text: &[char]) -> (r: bool)
    ensures
        r == glob_match(pattern@, text@),
{
    let np = pattern.len();
    let nt = text.len();
    // rows[k][j] and ends[k] hold the match of the pattern from np - k
    // against the text from j, and against the end of the text.
    let mut rows: Vec<Vec<bool>> = Vec::new();
    let mut ends: Vec<bool> = Vec::new();
    let mut last: Vec<bool> = Vec::new();
    let mut j: usize = 0;
    while j < nt
        invariant
            j <= nt,
            nt == text@.len(),
            np == pattern@.len(),
            last@.len() == j,
            forall|m: int| 0 <= m < j ==> last@[m] == glob_from(pattern@, text@, np as int, m),
        decreases nt - j,
    {
        last.push(false);
        j = j + 1;
    }
    rows.push(last);
    ends.push(true);
    let mut i: usize = np;
    while i > 0
        invariant
            i <= np,
            np == pattern@.len(),
            nt == text@.len(),
            rows@.len() == np - i + 1,
            ends@.len() == np - i + 1,
            forall|k: int| 0 <= k < rows@.len() ==> #[trigger] rows@[k]@.len() == nt,
            forall|k: int, m: int| 0 <= k < rows@.len() && 0 <= m < nt ==> #[trigger] rows@[k]@[m] == glob_from(pattern@, text@, np - k, m),
            forall|k: int| 0 <= k < ends@.len() ==> #[trigger] ends@[k] == glob_from(pattern@, text@, np - k, nt as int),
        decreases i,
    {
        i = i - 1;
        let double = np - i > 1 && pattern[i] == '*' && pattern[i + 1] == '*';
        let slash_after = np - i > 2 && pattern[i + 2] == '/';
        let c = pattern[i];
        let end_boundary = nt == 0 || text[nt - 1] == '/';
        // The end of the text.
        let end_val = if double {
            (slash_after && end_boundary && ends[np - i - 3]) || ends[np - i - 2]
        } else if c == '*' {
            ends[np - i - 1]
        } else {
            false
        };
        let mut cur: Vec<bool> = Vec::new();
        let mut m: usize = 0;
        while m < nt
            invariant
                m <= nt,
                cur@.len() == m,
            decreases nt - m,
        {
            cur.push(false);
            m = m + 1;
        }
        let mut j: usize = nt;
        while j > 0
            invariant
                j <= nt,
                i < np,
                np == pattern@.len(),
                nt == text@.len(),
                cur@.len() == nt,
                c == pattern@[i as int],
                rows@.len() == np - i,
                ends@.len() == np - i,
                double == (i + 1 < np && pattern@[i as int] == '*' && pattern@[i + 1] == '*'),
                slash_after == (i + 2 < np && pattern@[i + 2] == '/'),
                end_val == glob_from(pattern@, text@, i as int, nt as int),
                forall|k: int| 0 <= k < rows@.len() ==> #[trigger] rows@[k]@.len() == nt,
                forall|k: int, m: int| 0 <= k < rows@.len() && 0 <= m < nt ==> #[trigger] rows@[k]@[m] == glob_from(pattern@, text@, np - k, m),
                forall|k: int| 0 <= k < ends@.len() ==> #[trigger] ends@[k] == glob_from(pattern@, text@, np - k, nt as int),
                forall|m: int| j <= m < nt ==> cur@[m] == glob_from(pattern@, text@, i as int, m),
            decreases j,
        {
            j = j - 1;
            let next: bool = if j + 1 < nt { cur[j + 1] } else { end_val };
            let boundary = j == 0 || text[j - 1] == '/';
            let val = if double {
                (slash_after && boundary && rows[np - i - 3][j]) || rows[np - i - 2][j] || next
            } else if c == '*' {
                rows[np - i - 1][j] || (text[j] != '/' && next)
            } else if c == '?' {
                text[j] != '/' && (if j + 1 < nt { rows[np - i - 1][j + 1] } else { ends[np - i - 1] })
            } else {
                text[j] == c && (if j + 1 < nt { rows[np - i - 1][j + 1] } else { ends[np - i - 1] })
            };
            cur[j] = val;
        }
        rows.push(cur);
        ends.push(end_val);
    }
    if nt == 0 {
        ends[np]
    } else {
        rows[np][0]
    }
}

/// A path of the planned output that a policy pattern matched.
#[derive(Debug, PartialEq, Eq)]
pub struct PolicyViolation {
    pub path: RepoPath,
    pub pattern: String,
}

/// Outcome of a policy check.
#[derive(Debug, PartialEq, Eq)]
pub struct PolicyReport {
    /// Output paths that a `deny` pattern matched.
    pub denied: Vec<PolicyViolation>,
    /// Output paths that a `require_review` pattern matched.
    pub review: Vec<PolicyViolation>,
    /// Number of files the planned run deletes.
    pub deleted_count: u64,
    /// No path is denied and the deletions are within the limit.
    pub allowed: bool,
}

impl PolicyReport {
    /// Whether the run may proceed: allowed, and nothing awaits review.
    pub fn is_allowed(&self) -> (r: bool)
        ensures
            r == (self.allowed && self.review@.len() == 0),
    {
        self.allowed && self.review.len() == 0
    }
}

/// The paths of a snapshot's files, in order.
pub open spec fn snapshot_paths(s: RepositorySnapshot) -> Seq<Seq<char>> {
    s.entries().map_values(|e: crate::model::snapshot::FileEntry| e.path@)
}

/// The `(path, pattern)` pairs of the paths `pattern` matches, in order.
pub open spec fn pattern_hits(pattern: Seq<char>, paths: Seq<Seq<char>>) -> Seq<(Seq<char>, Seq<char>)>
    decreases paths.len(),
{
    if paths.len() == 0 {
        seq![]
    } else if glob_match(pattern, paths.last()) {
        pattern_hits(pattern, paths.drop_last()).push((paths.last(), pattern))
    } else {
        pattern_hits(pattern, paths.drop_last())
    }
}

/// The `(path, pattern)` pairs of every match, pattern by pattern.
pub open spec fn hits(patterns: Seq<Seq<char>>, paths: Seq<Seq<char>>) -> Seq<(Seq<char>, Seq<char>)>
    decreases patterns.len(),
{
    if patterns.len() == 0 {
        seq![]
    } else {
        hits(patterns.drop_last(), paths) + pattern_hits(patterns.last(), paths)
    }
}

/// The `(path, pattern)` pairs of violations.
pub open spec fn violation_views(v: Seq<PolicyViolation>) -> Seq<(Seq<char>, Seq<char>)> {
    v.map_values(|x: PolicyViolation| (x.path@, x.pattern@))
}

/// The deletion limit: `max_deleted_files`, or no limit.
pub open spec fn deletion_limit(policy: Policy) -> u64 {
    match policy.max_deleted_files {
        Some(m) => m,
        None => u64::MAX,
    }
}

fn check_globs(patterns: &Vec<String>, paths: &Vec<RepoPath>) -> (r: Vec<PolicyViolation>)
    ensures
        violation_views(r@) == hits(crate::config::validate::texts(patterns@), paths@.map_values(|p: RepoPath| p@)),
{
    let ghost ps = paths@.map_values(|p: RepoPath| p@);
    let mut out: Vec<PolicyViolation> = Vec::new();
    let mut i: usize = 0;
    while i < patterns.len()
        invariant
            i <= patterns@.len(),
            ps == paths@.map_values(|p: RepoPath| p@),
            violation_views(out@) == hits(crate::config::validate::texts(patterns@).subrange(0, i as int), ps),
        decreases patterns@.len() - i,
    {
        let pattern = &patterns[i];
        let pc = chars_of(pattern.as_str());
        let ghost start = violation_views(out@);
        let mut k: usize = 0;
        while k < paths.len()
            invariant
                k <= paths@.len(),
                pc@ == pattern@,
                ps == paths@.map_values(|p: RepoPath| p@),
                violation_views(out@) == start + pattern_hits(pattern@, ps.subrange(0, k as int)),
            decreases paths@.len() - k,
        {
            let ghost before = violation_views(out@);
            assert(ps.subrange(0, k + 1).drop_last() =~= ps.subrange(0, k as int));
            assert(ps.subrange(0, k + 1).last() == paths@[k as int]@);
            if glob_matches(&pc, &chars_of(paths[k].as_str())) {
                let v = PolicyViolation { path: paths[k].clone(), pattern: string_of(&pc) };
                out.push(v);
                assert(violation_views(out@) =~= before.push((paths@[k as int]@, pattern@)));
            }
            k = k + 1;
        }
        let ghost pts = crate::config::validate::texts(patterns@);
        assert(pts.subrange(0, i + 1).drop_last() =~= pts.subrange(0, i as int));
        assert(pts.subrange(0, i + 1).last() == pattern@);
        assert(ps.subrange(0, paths@.len() as int) =~= ps);
        i = i + 1;
    }
    assert(crate::config::validate::texts(patterns@).subrange(0, patterns@.len() as int) =~= crate::config::validate::texts(patterns@));
    out
}

/// Evaluates `policy` against a planned `diff` and `output` snapshot: the
/// output paths each `deny` and each `require_review` pattern matches,
/// and whether the run is allowed (nothing denied, deletions within
/// `max_deleted_files`).
pub fn check(policy: &Policy, diff: &SnapshotDiff, output: &RepositorySnapshot) -> (r: PolicyReport)
    ensures
        violation_views(r.denied@) == hits(crate::config::validate::texts(policy.deny@), snapshot_paths(*output)),
        violation_views(r.review@) == hits(crate::config::validate::texts(policy.require_review@), snapshot_paths(*output)),
        r.deleted_count == diff.removed@.len(),
        r.allowed == (r.denied@.len() == 0 && r.deleted_count <= deletion_limit(*policy)),
{
    let paths = output.paths();
    assert(paths@.map_values(|p: RepoPath| p@) =~= snapshot_paths(*output));
    let denied = check_globs(&policy.deny, &paths);
    let review = check_globs(&policy.require_review, &paths);
    let deleted_count = diff.removed.len() as u64;
    let limit = match policy.max_deleted_files {
        Some(m) => m,
        None => u64::MAX,
    };
    let allowed = denied.len() == 0 && deleted_count <= limit;
    PolicyReport { denied, review, deleted_count, allowed }
}

proof fn lemma_pattern_hits_contains(pattern: Seq<char>, paths: Seq<Seq<char>>, j: int)
    requires
        0 <= j < paths.len(),
        glob_match(pattern, paths[j]),
    ensures
        pattern_hits(pattern, paths).contains((paths[j], pattern)),
    decreases paths.len(),
{
    if j == paths.len() - 1 {
        let h = pattern_hits(pattern, paths);
        assert(h.last() == (paths[j], pattern));
        assert(h[h.len() - 1] == (paths[j], pattern));
    } else {
        assert(paths.drop_last()[j] == paths[j]);
        lemma_pattern_hits_contains(pattern, paths.drop_last(), j);
        let prev = pattern_hits(pattern, paths.drop_last());
        let k = choose|k: int| 0 <= k < prev.len() && prev[k] == (paths[j], pattern);
        assert(pattern_hits(pattern, paths)[k] == prev[k]);
    }
}

/// A path of the planned output that some pattern matches is reported,
/// with that pattern, among the hits of the patterns.
pub proof fn lemma_match_is_reported(patterns: Seq<Seq<char>>, paths: Seq<Seq<char>>, i: int, j: int)
    requires
        0 <= i < patterns.len(),
        0 <= j < paths.len(),
        glob_match(patterns[i], paths[j]),
    ensures
        hits(patterns, paths).contains((paths[j], patterns[i])),
    decreases patterns.len(),
{
    let prev = hits(patterns.drop_last(), paths);
    if i == patterns.len() - 1 {
        lemma_pattern_hits_contains(patterns[i], paths, j);
        let ph = pattern_hits(patterns.last(), paths);
        let k = choose|k: int| 0 <= k < ph.len() && ph[k] == (paths[j], patterns[i]);
        assert(hits(patterns, paths)[prev.len() + k] == ph[k]);
    } else {
        assert(patterns.drop_last()[i] == patterns[i]);
        lemma_match_is_reported(patterns.drop_last(), paths, i, j);
        let k = choose|k: int| 0 <= k < prev.len() && prev[k] == (paths[j], patterns[i]);
        assert(hits(patterns, paths)[k] == prev[k]);
    }
}

/// A planned output holding a path that a `deny` pattern matches is never
/// allowed to reach the destination.
pub proof fn lemma_denied_path_blocks(policy: Policy, output: RepositorySnapshot, report: PolicyReport, i: int, j: int)
    requires
        violation_views(report.denied@) == hits(crate::config::validate::texts(policy.deny@), snapshot_paths(output)),
        report.allowed == (report.denied@.len() == 0 && report.deleted_count <= deletion_limit(policy)),
        0 <= i < policy.deny@.len(),
        0 <= j < output.entries().len(),
        glob_match(policy.deny@[i]@, output.entries()[j].path@),
    ensures
        !report.allowed,
{
    let pats = crate::config::validate::texts(policy.deny@);
    let paths = snapshot_paths(output);
    assert(pats[i] == policy.deny@[i]@);
    assert(paths[j] == output.entries()[j].path@);
    lemma_match_is_reported(pats, paths, i, j);
    assert(violation_views(report.denied@).len() == report.denied@.len());
}

} // verus!

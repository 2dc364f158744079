//! Recognizing and normalizing git repository locations.
use vstd::prelude::*;

use crate::text::{
    trim_end as trim_end_spec, trim_start as trim_start_spec, chars_eq, chars_of, ends_with, find_chars, has_prefix, has_suffix, occurs_at, starts_with,
    string_of, sub_chars, trim, trim_chars,
};

verus! {

/// The URL schemes accepted before `://`.
pub open spec fn known_scheme(s: Seq<char>) -> bool {
    ||| s == seq!['s', 's', 'h']
    ||| s == seq!['h', 't', 't', 'p', 's']
    ||| s == seq!['h', 't', 't', 'p']
    ||| s == seq!['g', 'i', 't']
    ||| s == seq!['f', 'i', 'l', 'e']
}

/// The separator between a URL scheme and the rest.
pub open spec fn scheme_sep() -> Seq<char> {
    seq![':', '/', '/']
}

/// `u` (already trimmed) looks like a usable git location: scp-like SSH
/// (`git@host:path`), a `ssh`, `https`, `http`, `git` or `file` URL with
/// something after `://`, or a local path (`/`, `./`, `../`, `~/`, `~`).
pub open spec fn git_location(u: Seq<char>) -> bool {
    if u.len() == 0 {
        false
    } else if has_prefix(u, seq!['g', 'i', 't', '@']) {
        let rest = u.subrange(4, u.len() as int);
        rest.contains(':') && rest[0] != ':'
    } else if exists|i: int| occurs_at(u, scheme_sep(), i) {
        let i = choose|i: int|
            occurs_at(u, scheme_sep(), i) && forall|j: int| 0 <= j < i ==> !occurs_at(u, scheme_sep(), j);
        known_scheme(u.subrange(0, i)) && i + 3 < u.len()
    } else {
        ||| has_prefix(u, seq!['/'])
        ||| has_prefix(u, seq!['.', '/'])
        ||| has_prefix(u, seq!['.', '.', '/'])
        ||| has_prefix(u, seq!['~', '/'])
        ||| u == seq!['~']
    }
}

/// Whether `url`, once trimmed, is a usable git location.
pub open spec fn valid_git_url(url: Seq<char>) -> bool {
    git_location(trim(url))
}

fn is_known_scheme(s: &[char]) -> (r: bool)
    ensures
        r == known_scheme(s@),
{
    let ssh = vec!['s', 's', 'h'];
    let https = vec!['h', 't', 't', 'p', 's'];
    let http = vec!['h', 't', 't', 'p'];
    let git = vec!['g', 'i', 't'];
    let file = vec!['f', 'i', 'l', 'e'];
    chars_eq(s, &ssh) || chars_eq(s, &https) || chars_eq(s, &http) || chars_eq(s, &git)
        || chars_eq(s, &file)
}

/// Returns `true` if `url` looks like a usable git location.
///
/// Accepts scp-like SSH (`git@host:path`), `ssh://`, `https://`, `http://`,
/// `git://`, `file://`, and local filesystem paths.
pub fn is_valid_git_url(url: &str) -> (r: bool)
    ensures
        r == valid_git_url(url@),
{
    let all = chars_of(url);
    let u = trim_chars(&all);
    if u.len() == 0 {
        return false;
    }
    let git_at = vec!['g', 'i', 't', '@'];
    assert(git_at@ =~= seq!['g', 'i', 't', '@']);
    if starts_with(&u, &git_at) {
        let rest = sub_chars(&u, 4, u.len());
        let mut has_colon = false;
        let mut k: usize = 0;
        while k < rest.len()
            invariant
                k <= rest@.len(),
                has_colon == exists|j: int| 0 <= j < k && rest@[j] == ':',
            decreases rest@.len() - k,
        {
            if rest[k] == ':' {
                has_colon = true;
            }
            k = k + 1;
        }
        proof {
            assert(has_colon == rest@.contains(':'));
        }
        return has_colon && rest[0] != ':';
    }
    let sep = vec![':', '/', '/'];
    assert(sep@ =~= scheme_sep());
    match find_chars(&u, &sep) {
        Some(i) => {
            let scheme = sub_chars(&u, 0, i);
            let valid = is_known_scheme(&scheme);
            proof {
                let c = choose|c: int|
                    occurs_at(u@, scheme_sep(), c) && forall|j: int| 0 <= j < c ==> !occurs_at(u@, scheme_sep(), j);
                assert(c == i) by {
                    if c < i {
                    } else if c > i {
                    }
                }
            }
            return valid && i + 3 < u.len();
        },
        None => {},
    }
    let p1 = vec!['/'];
    let p2 = vec!['.', '/'];
    let p3 = vec!['.', '.', '/'];
    let p4 = vec!['~', '/'];
    let tilde = vec!['~'];
    assert(p1@ =~= seq!['/']);
    assert(p2@ =~= seq!['.', '/']);
    assert(p3@ =~= seq!['.', '.', '/']);
    assert(p4@ =~= seq!['~', '/']);
    assert(tilde@ =~= seq!['~']);
    starts_with(&u, &p1) || starts_with(&u, &p2) || starts_with(&u, &p3) || starts_with(&u, &p4)
        || chars_eq(&u, &tilde)
}

/// `s` with every trailing copy of the non-empty `p` removed
/// (`str::trim_end_matches`).
pub open spec fn strip_suffixes(s: Seq<char>, p: Seq<char>) -> Seq<char>
    decreases s.len(),
{
    if p.len() > 0 && has_suffix(s, p) {
        strip_suffixes(s.subrange(0, s.len() - p.len()), p)
    } else {
        s
    }
}

/// The normal form of a URL: trimmed, without trailing `/`s, then without
/// trailing `.git` suffixes.
pub open spec fn normal_url(url: Seq<char>) -> Seq<char> {
    strip_suffixes(strip_suffixes(trim(url), seq!['/']), seq!['.', 'g', 'i', 't'])
}

/// Executable form of [`strip_suffixes`].
fn strip_suffixes_exec(s: &[char], p: &[char]) -> (r: Vec<char>)
    requires
        p@.len() > 0,
    ensures
        r@ == strip_suffixes(s@, p@),
{
    let mut end: usize = s.len();
    assert(s@.subrange(0, s@.len() as int) =~= s@);
    loop
        invariant
            end <= s@.len(),
            p@.len() > 0,
            strip_suffixes(s@, p@) == strip_suffixes(s@.subrange(0, end as int), p@),
        decreases end,
    {
        let cur = sub_chars(s, 0, end);
        if ends_with(&cur, p) {
            proof {
                assert(cur@.subrange(0, cur@.len() - p@.len()) =~= s@.subrange(0, end - p@.len()));
            }
            end = end - p.len();
        } else {
            return cur;
        }
    }
}

/// Normalizes a URL for equality comparisons: trims whitespace, strips
/// trailing `/`s and then trailing `.git` suffixes.
pub fn normalize_url(url: &str) -> (r: String)
    ensures
        r@ == normal_url(url@),
{
    let all = chars_of(url);
    let t = trim_chars(&all);
    let slash = vec!['/'];
    let dot_git = vec!['.', 'g', 'i', 't'];
    assert(slash@ =~= seq!['/']);
    assert(dot_git@ =~= seq!['.', 'g', 'i', 't']);
    let a = strip_suffixes_exec(&t, &slash);
    let b = strip_suffixes_exec(&a, &dot_git);
    string_of(&b)
}

proof fn lemma_strip_suffixes_prefix(s: Seq<char>, p: Seq<char>)
    requires
        p.len() > 0,
    ensures
        strip_suffixes(s, p).len() <= s.len(),
        s.subrange(0, strip_suffixes(s, p).len() as int) == strip_suffixes(s, p),
        !has_suffix(strip_suffixes(s, p), p),
    decreases s.len(),
{
    if has_suffix(s, p) {
        let t = s.subrange(0, s.len() - p.len());
        lemma_strip_suffixes_prefix(t, p);
        let r = strip_suffixes(t, p);
        assert(s.subrange(0, r.len() as int) =~= t.subrange(0, r.len() as int));
    } else {
        assert(s.subrange(0, s.len() as int) =~= s);
    }
}

proof fn lemma_trim_start_first(s: Seq<char>)
    ensures
        trim_start_spec(s).len() > 0 ==> !crate::text::is_ws(trim_start_spec(s)[0]),
    decreases s.len(),
{
    if s.len() > 0 && crate::text::is_ws(s[0]) {
        lemma_trim_start_first(s.drop_first());
    }
}

proof fn lemma_trim_end_prefix(s: Seq<char>)
    ensures
        trim_end_spec(s).len() <= s.len(),
        s.subrange(0, trim_end_spec(s).len() as int) == trim_end_spec(s),
    decreases s.len(),
{
    if s.len() > 0 && crate::text::is_ws(s.last()) {
        lemma_trim_end_prefix(s.drop_last());
        let r = trim_end_spec(s.drop_last());
        assert(s.subrange(0, r.len() as int) =~= s.drop_last().subrange(0, r.len() as int));
    } else {
        assert(s.subrange(0, s.len() as int) =~= s);
    }
}

/// Normalizing a normal form changes nothing, for every URL whose normal
/// form does not end in `/` or in whitespace (stripping `.git` can expose
/// either, as in `repo/.git`, and a second pass would strip it).
pub proof fn lemma_normal_url_idempotent(url: Seq<char>)
    requires
        normal_url(url).len() > 0 ==> normal_url(url).last() != '/' && !crate::text::is_ws(normal_url(url).last()),
    ensures
        normal_url(normal_url(url)) == normal_url(url),
{
    let t = trim(url);
    let a = strip_suffixes(t, seq!['/']);
    let n = strip_suffixes(a, seq!['.', 'g', 'i', 't']);
    lemma_strip_suffixes_prefix(t, seq!['/']);
    lemma_strip_suffixes_prefix(a, seq!['.', 'g', 'i', 't']);
    lemma_trim_start_first(url);
    lemma_trim_end_prefix(trim_start_spec(url));
    if n.len() > 0 {
        assert(n[0] == a[0]);
        assert(a[0] == t[0]);
        assert(t[0] == trim_start_spec(url)[0]);
        assert(trim(n) == n);
        assert(!has_suffix(n, seq!['/'])) by {
            if has_suffix(n, seq!['/']) {
                assert(n.subrange(n.len() - 1, n.len() as int)[0] == n.last());
            }
        }
    } else {
        assert(trim(n) =~= n);
    }
}

} // verus!

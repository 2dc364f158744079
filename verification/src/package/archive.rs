//! The sandbox that archive entries pass before extraction: entry paths are
//! relative and never climb out, npm's leading `package/` is dropped, links
//! stay inside, and file permissions are capped.
use vstd::prelude::*;

use crate::package::layout::path_joined as path_joined_spec;
use crate::text::{chars_of, concat_chars, string_of};

verus! {

/// The pieces of `s` between `/` characters, `cur` being the text of the
/// piece already begun (`str::split('/')`).
pub open spec fn split_from(s: Seq<char>, cur: Seq<char>) -> Seq<Seq<char>>
    decreases s.len(),
{
    if s.len() == 0 {
        seq![cur]
    } else if s[0] == '/' {
        seq![cur] + split_from(s.drop_first(), seq![])
    } else {
        split_from(s.drop_first(), cur.push(s[0]))
    }
}

/// The pieces of `s` between `/` characters.
pub open spec fn segments(s: Seq<char>) -> Seq<Seq<char>> {
    split_from(s, seq![])
}

/// A piece that names a component: neither empty nor `.`.
pub open spec fn is_named(p: Seq<char>) -> bool {
    p.len() > 0 && p != seq!['.']
}

/// The pieces that name components, in order.
pub open spec fn named(parts: Seq<Seq<char>>) -> Seq<Seq<char>>
    decreases parts.len(),
{
    if parts.len() == 0 {
        seq![]
    } else if is_named(parts.last()) {
        named(parts.drop_last()).push(parts.last())
    } else {
        named(parts.drop_last())
    }
}

/// The pieces joined with one `/` between neighbours.
pub open spec fn joined(parts: Seq<Seq<char>>) -> Seq<char>
    decreases parts.len(),
{
    if parts.len() == 0 {
        seq![]
    } else if parts.len() == 1 {
        parts[0]
    } else {
        joined(parts.drop_last()) + seq!['/'] + parts.last()
    }
}

/// `p` is absolute: it starts at the root.
pub open spec fn is_absolute(p: Seq<char>) -> bool {
    p.len() > 0 && p[0] == '/'
}

/// The components of `p`, spelled once each with single `/` separators.
pub open spec fn normalized(p: Seq<char>) -> Seq<char> {
    joined(named(segments(p)))
}

/// The path an archive entry may be extracted to, or why it may not: an
/// absolute path, or one with a `..` component, is refused.
pub open spec fn sanitized(p: Seq<char>) -> Result<Seq<char>, Seq<char>> {
    if is_absolute(p) {
        Err("absolute path not allowed: "@ + p)
    } else if segments(p).contains(seq!['.', '.']) {
        Err("'..' not allowed: "@ + p)
    } else {
        Ok(normalized(p))
    }
}

/// `p` without the leading `package` component that npm tarballs use; any
/// other path unchanged.
pub open spec fn without_npm_prefix(p: Seq<char>) -> Seq<char> {
    if !is_absolute(p) && segments(p)[0] == "package"@ {
        joined(named(segments(p).drop_first()))
    } else {
        p
    }
}

/// The characters of each vector.
pub open spec fn views(v: Seq<Vec<char>>) -> Seq<Seq<char>> {
    v.map_values(|x: Vec<char>| x@)
}

/// Executable form of [`segments`].
pub fn split_segments(s: &[char]) -> (r: Vec<Vec<char>>)
    ensures
        views(r@) == segments(s@),
{
    let n = s.len();
    let mut done: Vec<Vec<char>> = Vec::new();
    let mut cur: Vec<char> = Vec::new();
    let mut i: usize = 0;
    assert(s@.subrange(0, n as int) =~= s@);
    while i < n
        invariant
            n == s@.len(),
            i <= n,
            views(done@) + split_from(s@.subrange(i as int, n as int), cur@) == segments(s@),
        decreases n - i,
    {
        let ghost rest = s@.subrange(i as int, n as int);
        assert(rest.drop_first() =~= s@.subrange(i + 1, n as int));
        if s[i] == '/' {
            let ghost d = views(done@);
            let finished = cur;
            done.push(finished);
            cur = Vec::new();
            assert(views(done@) =~= d + seq![finished@]);
            assert(views(done@) + split_from(s@.subrange(i + 1, n as int), cur@) =~= d + (seq![finished@] + split_from(s@.subrange(i + 1, n as int), seq![])));
        } else {
            cur.push(s[i]);
        }
        i = i + 1;
    }
    let ghost d = views(done@);
    done.push(cur);
    assert(views(done@) =~= d + seq![cur@]);
    done
}

/// Executable form of [`named`].
pub(crate) fn named_parts(parts: &Vec<Vec<char>>) -> (r: Vec<Vec<char>>)
    ensures
        views(r@) == named(views(parts@)),
{
    let mut r: Vec<Vec<char>> = Vec::new();
    let mut i: usize = 0;
    while i < parts.len()
        invariant
            i <= parts@.len(),
            views(r@) == named(views(parts@).subrange(0, i as int)),
        decreases parts@.len() - i,
    {
        let ghost before = views(r@);
        let p = &parts[i];
        assert(views(parts@).subrange(0, i + 1).drop_last() =~= views(parts@).subrange(0, i as int));
        assert(views(parts@).subrange(0, i + 1).last() == p@);
        let is_dot = p.len() == 1 && p[0] == '.';
        assert(is_dot == (p@ == seq!['.'])) by {
            if p@ == seq!['.'] {
                assert(p@[0] == '.');
            }
            if is_dot {
                assert(p@ =~= seq!['.']);
            }
        }
        if p.len() > 0 && !is_dot {
            r.push(string_chars_copy(p));
            assert(views(r@) =~= before.push(p@));
        }
        i = i + 1;
    }
    assert(views(parts@).subrange(0, parts@.len() as int) =~= views(parts@));
    r
}

fn string_chars_copy(v: &Vec<char>) -> (r: Vec<char>)
    ensures
        r@ == v@,
{
    concat_chars(v, &Vec::new())
}

/// Executable form of [`joined`].
fn join_parts(parts: &Vec<Vec<char>>) -> (r: Vec<char>)
    ensures
        r@ == joined(views(parts@)),
{
    let mut r: Vec<char> = Vec::new();
    let mut i: usize = 0;
    while i < parts.len()
        invariant
            i <= parts@.len(),
            r@ == joined(views(parts@).subrange(0, i as int)),
        decreases parts@.len() - i,
    {
        let ghost sub = views(parts@).subrange(0, i + 1);
        assert(sub.drop_last() =~= views(parts@).subrange(0, i as int));
        if i > 0 {
            r.push('/');
        }
        r = concat_chars(&r, &parts[i]);
        assert(r@ =~= joined(sub));
        i = i + 1;
    }
    assert(views(parts@).subrange(0, parts@.len() as int) =~= views(parts@));
    r
}

/// Whether some piece is `..`.
fn has_parent_part(parts: &Vec<Vec<char>>) -> (r: bool)
    ensures
        r == views(parts@).contains(seq!['.', '.']),
{
    let mut i: usize = 0;
    while i < parts.len()
        invariant
            i <= parts@.len(),
            forall|k: int| 0 <= k < i ==> views(parts@)[k] != seq!['.', '.'],
        decreases parts@.len() - i,
    {
        let p = &parts[i];
        if p.len() == 2 && p[0] == '.' && p[1] == '.' {
            assert(views(parts@)[i as int] =~= seq!['.', '.']);
            return true;
        }
        assert(views(parts@)[i as int] != seq!['.', '.']) by {
            if views(parts@)[i as int] == seq!['.', '.'] {
                assert(p@ == seq!['.', '.']);
                assert(p@[0] == '.' && p@[1] == '.');
            }
        }
        i = i + 1;
    }
    false
}

/// Checks an archive entry path: refuses an absolute path or one with a
/// `..` component, and otherwise returns its components joined by `/`.
pub fn sanitize_entry_path(p: &str) -> (r: Result<String, String>)
    ensures
        match r {
            Ok(s) => sanitized(p@) == Ok::<Seq<char>, Seq<char>>(s@),
            Err(m) => sanitized(p@) == Err::<Seq<char>, Seq<char>>(m@),
        },
{
    let v = chars_of(p);
    if v.len() > 0 && v[0] == '/' {
        return Err(string_of(&concat_chars(&chars_of("absolute path not allowed: "), &v)));
    }
    let parts = split_segments(&v);
    if has_parent_part(&parts) {
        return Err(string_of(&concat_chars(&chars_of("'..' not allowed: "), &v)));
    }
    Ok(string_of(&join_parts(&named_parts(&parts))))
}

/// Drops the leading `package` component that npm tarballs put before
/// every entry; other paths come back unchanged.
pub fn strip_npm_package_prefix(p: &str) -> (r: String)
    ensures
        r@ == without_npm_prefix(p@),
{
    let v = chars_of(p);
    let parts = split_segments(&v);
    assert(segments(v@).len() > 0) by {
        lemma_segments_nonempty(v@, seq![]);
    }
    let first = &parts[0];
    proof {
        reveal_strlit("package");
    }
    let is_package = crate::text::chars_eq(first, &chars_of("package"));
    if !(v.len() > 0 && v[0] == '/') && is_package {
        let mut rest: Vec<Vec<char>> = Vec::new();
        let mut i: usize = 1;
        while i < parts.len()
            invariant
                1 <= i <= parts@.len(),
                views(rest@) == views(parts@).subrange(1, i as int),
            decreases parts@.len() - i,
        {
            let ghost before = views(rest@);
            let part = string_chars_copy(&parts[i]);
            rest.push(part);
            assert(views(rest@) =~= before.push(views(parts@)[i as int]));
            i = i + 1;
            assert(views(rest@) =~= views(parts@).subrange(1, i as int));
        }
        assert(views(parts@).drop_first() =~= views(parts@).subrange(1, parts@.len() as int));
        return string_of(&join_parts(&named_parts(&rest)));
    }
    string_of(&v)
}

proof fn lemma_segments_nonempty(s: Seq<char>, cur: Seq<char>)
    ensures
        split_from(s, cur).len() > 0,
    decreases s.len(),
{
    if s.len() > 0 {
        if s[0] == '/' {
            lemma_segments_nonempty(s.drop_first(), seq![]);
        } else {
            lemma_segments_nonempty(s.drop_first(), cur.push(s[0]));
        }
    }
}

/// `a` begins `b`.
pub open spec fn is_prefix_of(a: Seq<Seq<char>>, b: Seq<Seq<char>>) -> bool {
    a.len() <= b.len() && b.subrange(0, a.len() as int) == a
}

/// `candidate` lies at or below `base`: both are absolute or both relative,
/// and the components of `base` begin those of `candidate`
/// (`Path::starts_with`, for paths that do not begin with `./`).
pub open spec fn lies_within(base: Seq<char>, candidate: Seq<char>) -> bool {
    is_absolute(base) == is_absolute(candidate) && is_prefix_of(named(segments(base)), named(segments(candidate)))
}

/// Whether `candidate` lies at or below `base`, comparing components.
pub fn is_within(base: &str, candidate: &str) -> (r: bool)
    ensures
        r == lies_within(base@, candidate@),
{
    let b = chars_of(base);
    let c = chars_of(candidate);
    let ab = b.len() > 0 && b[0] == '/';
    let ac = c.len() > 0 && c[0] == '/';
    if ab != ac {
        return false;
    }
    let bp = named_parts(&split_segments(&b));
    let cp = named_parts(&split_segments(&c));
    if bp.len() > cp.len() {
        return false;
    }
    let mut i: usize = 0;
    while i < bp.len()
        invariant
            i <= bp@.len() <= cp@.len(),
            views(bp@) == named(segments(base@)),
            views(cp@) == named(segments(candidate@)),
            is_absolute(base@) == is_absolute(candidate@),
            forall|k: int| 0 <= k < i ==> views(bp@)[k] == views(cp@)[k],
        decreases bp@.len() - i,
    {
        if !crate::text::chars_eq(&bp[i], &cp[i]) {
            assert(views(bp@)[i as int] == bp@[i as int]@);
            assert(views(cp@)[i as int] == cp@[i as int]@);
            assert(!is_prefix_of(views(bp@), views(cp@))) by {
                if is_prefix_of(views(bp@), views(cp@)) {
                    assert(views(cp@).subrange(0, views(bp@).len() as int)[i as int] == views(cp@)[i as int]);
                }
            }
            return false;
        }
        i = i + 1;
    }
    assert(views(cp@).subrange(0, views(bp@).len() as int) =~= views(bp@));
    true
}

/// A link target that may be recreated: relative, with no `..` in it.
pub open spec fn safe_link(link: Seq<char>) -> bool {
    !is_absolute(link) && !(exists|i: int| crate::text::occurs_at(link, ".."@, i))
}

/// Whether a symlink or hard-link target may be recreated inside the
/// extraction directory.
pub fn link_is_safe(link: &str) -> (r: bool)
    ensures
        r == safe_link(link@),
{
    let v = chars_of(link);
    if v.len() > 0 && v[0] == '/' {
        return false;
    }
    match crate::text::find_chars(&v, &chars_of("..")) {
        Some(_) => false,
        None => true,
    }
}

/// The permission bits an extracted file gets: `0o755` when any execute
/// bit was set, else `0o644`.
pub open spec fn capped(mode: u32) -> u32 {
    if mode & 0o111u32 != 0 {
        0o755
    } else {
        0o644
    }
}

/// Caps the permission bits of an extracted regular file.
pub fn capped_mode(mode: u32) -> (r: u32)
    ensures
        r == capped(mode),
{
    if mode & 0o111u32 != 0 {
        0o755
    } else {
        0o644
    }
}

/// The zip magic `PK\x03\x04`.
pub open spec fn zip_magic() -> Seq<u8> {
    seq![0x50u8, 0x4Bu8, 0x03u8, 0x04u8]
}

/// An archive is read as zip when its bytes start with the zip magic or its
/// file name has the `zip` extension; otherwise as gzipped tar.
pub open spec fn zip_archive(bytes: Seq<u8>, extension: Option<Seq<char>>) -> bool {
    (bytes.len() >= 4 && bytes.subrange(0, 4) == zip_magic()) || extension == Some("zip"@)
}

/// Whether an archive is a zip (else a gzipped tar), from its bytes and the
/// extension of its file name.
pub fn is_zip(bytes: &[u8], extension: Option<&str>) -> (r: bool)
    ensures
        r == zip_archive(bytes@, crate::package::spec::opt_str_view(extension)),
{
    if bytes.len() >= 4 && bytes[0] == 0x50u8 && bytes[1] == 0x4Bu8 && bytes[2] == 0x03u8 && bytes[3] == 0x04u8 {
        assert(bytes@.subrange(0, 4) =~= zip_magic());
        return true;
    }
    assert(!(bytes@.len() >= 4 && bytes@.subrange(0, 4) == zip_magic())) by {
        if bytes@.len() >= 4 && bytes@.subrange(0, 4) == zip_magic() {
            assert(bytes@.subrange(0, 4)[0] == bytes@[0]);
            assert(bytes@.subrange(0, 4)[1] == bytes@[1]);
            assert(bytes@.subrange(0, 4)[2] == bytes@[2]);
            assert(bytes@.subrange(0, 4)[3] == bytes@[3]);
        }
    }
    match extension {
        Some(e) => crate::text::chars_eq(&chars_of(e), &chars_of("zip")),
        None => false,
    }
}

proof fn lemma_split_concat(a: Seq<char>, b: Seq<char>, cur: Seq<char>)
    ensures
        split_from(a + seq!['/'] + b, cur) == split_from(a, cur) + split_from(b, seq![]),
    decreases a.len(),
{
    let s = a + seq!['/'] + b;
    if a.len() == 0 {
        assert(s.drop_first() =~= b);
        assert(s[0] == '/');
    } else {
        assert(s.drop_first() =~= a.drop_first() + seq!['/'] + b);
        assert(s[0] == a[0]);
        if a[0] == '/' {
            lemma_split_concat(a.drop_first(), b, seq![]);
            assert(seq![cur] + (split_from(a.drop_first(), seq![]) + split_from(b, seq![])) =~= (seq![cur] + split_from(a.drop_first(), seq![])) + split_from(b, seq![]));
        } else {
            lemma_split_concat(a.drop_first(), b, cur.push(a[0]));
        }
    }
}

proof fn lemma_named_concat(x: Seq<Seq<char>>, y: Seq<Seq<char>>)
    ensures
        named(x + y) == named(x) + named(y),
    decreases y.len(),
{
    if y.len() == 0 {
        assert(x + y =~= x);
        assert(named(x) + named(y) =~= named(x));
    } else {
        assert((x + y).drop_last() =~= x + y.drop_last());
        assert((x + y).last() == y.last());
        lemma_named_concat(x, y.drop_last());
        if is_named(y.last()) {
            assert(named(x) + named(y.drop_last()).push(y.last()) =~= (named(x) + named(y.drop_last())).push(y.last()));
        }
    }
}

proof fn lemma_split_no_slash(s: Seq<char>, cur: Seq<char>)
    requires
        !cur.contains('/'),
    ensures
        forall|i: int| 0 <= i < split_from(s, cur).len() ==> !(#[trigger] split_from(s, cur)[i]).contains('/'),
    decreases s.len(),
{
    if s.len() == 0 {
        assert(split_from(s, cur) =~= seq![cur]);
    } else {
        if s[0] == '/' {
            lemma_split_no_slash(s.drop_first(), seq![]);
            assert forall|i: int| 0 <= i < split_from(s, cur).len() implies !(#[trigger] split_from(s, cur)[i]).contains('/') by {
                if i > 0 {
                    assert(split_from(s, cur)[i] == split_from(s.drop_first(), seq![])[i - 1]);
                }
            }
        } else {
            assert(!cur.push(s[0]).contains('/')) by {
                if cur.push(s[0]).contains('/') {
                    let k = choose|k: int| 0 <= k < cur.push(s[0]).len() && cur.push(s[0])[k] == '/';
                    if k < cur.len() {
                        assert(cur.contains('/'));
                    }
                }
            }
            lemma_split_no_slash(s.drop_first(), cur.push(s[0]));
            assert(split_from(s, cur) == split_from(s.drop_first(), cur.push(s[0])));
        }
    }
}

proof fn lemma_named_of_empty_split()
    ensures
        named(split_from(Seq::<char>::empty(), seq![])) =~= Seq::<Seq<char>>::empty(),
{
    let e = Seq::<char>::empty();
    assert(split_from(e, seq![]) =~= seq![e]);
    assert(seq![e].drop_last() =~= Seq::<Seq<char>>::empty());
    assert(!is_named(seq![e].last()));
    assert(named(seq![e]) == named(seq![e].drop_last()));
    assert(named(Seq::<Seq<char>>::empty()) =~= Seq::<Seq<char>>::empty());
}

proof fn lemma_named_keeps(parts: Seq<Seq<char>>)
    ensures
        forall|i: int| 0 <= i < named(parts).len() ==> is_named(#[trigger] named(parts)[i]) && parts.contains(named(parts)[i]),
    decreases parts.len(),
{
    if parts.len() > 0 {
        lemma_named_keeps(parts.drop_last());
        assert forall|i: int| 0 <= i < named(parts).len() implies is_named(#[trigger] named(parts)[i]) && parts.contains(named(parts)[i]) by {
            if i < named(parts.drop_last()).len() {
                let k = choose|k: int| 0 <= k < parts.drop_last().len() && parts.drop_last()[k] == named(parts.drop_last())[i];
                assert(parts[k] == parts.drop_last()[k]);
            } else {
                assert(parts[parts.len() - 1] == parts.last());
            }
        }
    }
}

proof fn lemma_joined_relative(parts: Seq<Seq<char>>)
    requires
        forall|i: int| 0 <= i < parts.len() ==> is_named(#[trigger] parts[i]) && !parts[i].contains('/'),
    ensures
        !is_absolute(joined(parts)),
        parts.len() > 0 ==> joined(parts).len() > 0 && joined(parts)[0] == parts[0][0],
    decreases parts.len(),
{
    if parts.len() > 1 {
        lemma_joined_relative(parts.drop_last());
        assert(parts.drop_last()[0] == parts[0]);
    } else if parts.len() == 1 {
        assert(is_named(parts[0]));
        if parts[0][0] == '/' {
            assert(parts[0].contains('/'));
        }
    }
}

proof fn lemma_relative_join_inside(dest: Seq<char>, q: Seq<char>)
    requires
        !is_absolute(q),
    ensures
        lies_within(dest, path_joined_spec(dest, q)),
{
    let j = path_joined_spec(dest, q);
    lemma_named_of_empty_split();
    if dest.len() == 0 {
        assert(j == q);
        assert(dest =~= Seq::<char>::empty());
        assert(named(segments(dest)) =~= Seq::<Seq<char>>::empty());
        assert(named(segments(j)).subrange(0, 0) =~= Seq::<Seq<char>>::empty());
    } else if dest.last() == '/' {
        let d0 = dest.drop_last();
        assert(dest =~= d0 + seq!['/'] + Seq::<char>::empty());
        assert(j =~= d0 + seq!['/'] + q);
        lemma_split_concat(d0, Seq::<char>::empty(), seq![]);
        lemma_split_concat(d0, q, seq![]);
        lemma_named_concat(split_from(d0, seq![]), split_from(Seq::<char>::empty(), seq![]));
        lemma_named_concat(split_from(d0, seq![]), split_from(q, seq![]));
        assert(named(segments(dest)) =~= named(split_from(d0, seq![])));
        assert(named(segments(j)).subrange(0, named(segments(dest)).len() as int) =~= named(segments(dest)));
        assert(j[0] == dest[0]);
    } else {
        assert(j =~= dest + seq!['/'] + q);
        lemma_split_concat(dest, q, seq![]);
        lemma_named_concat(split_from(dest, seq![]), split_from(q, seq![]));
        assert(named(segments(j)).subrange(0, named(segments(dest)).len() as int) =~= named(segments(dest)));
        assert(j[0] == dest[0]);
    }
}

proof fn lemma_named_parts_relative(parts: Seq<Seq<char>>)
    requires
        forall|i: int| 0 <= i < parts.len() ==> !(#[trigger] parts[i]).contains('/'),
    ensures
        !is_absolute(joined(named(parts))),
{
    let np = named(parts);
    lemma_named_keeps(parts);
    assert forall|i: int| 0 <= i < np.len() implies is_named(#[trigger] np[i]) && !np[i].contains('/') by {
        let k = choose|k: int| 0 <= k < parts.len() && parts[k] == np[i];
        assert(!parts[k].contains('/'));
    }
    lemma_joined_relative(np);
}

/// An archive entry that passes the sandbox is extracted at or below the
/// destination directory: joined onto any destination, the path it is
/// given lies within that destination, and so does the path without npm's
/// leading `package` component.
pub proof fn lemma_sanitized_entry_stays_inside(dest: Seq<char>, entry: Seq<char>, out: Seq<char>)
    requires
        sanitized(entry) == Ok::<Seq<char>, Seq<char>>(out),
    ensures
        !is_absolute(out),
        lies_within(dest, path_joined_spec(dest, out)),
        lies_within(dest, path_joined_spec(dest, without_npm_prefix(out))),
{
    lemma_split_no_slash(entry, seq![]);
    lemma_named_parts_relative(segments(entry));
    lemma_relative_join_inside(dest, out);
    lemma_split_no_slash(out, seq![]);
    lemma_segments_nonempty(out, seq![]);
    let rest = segments(out).drop_first();
    assert forall|i: int| 0 <= i < rest.len() implies !(#[trigger] rest[i]).contains('/') by {
        assert(rest[i] == segments(out)[i + 1]);
    }
    lemma_named_parts_relative(rest);
    lemma_relative_join_inside(dest, without_npm_prefix(out));
}

} // verus!

//! Generated-commit markers: the trailer that mirror commits carry, naming
//! the source commit they were derived from, so that a reverse sync can
//! recognize its own output and refuse to re-import it.
use vstd::prelude::*;

use crate::model::commit::CommitId;
use crate::text::{chars_of, concat_chars, has_prefix, is_ws, starts_with, string_of, sub_chars, trim, trim_chars, trim_start};

verus! {

/// Trailer key embedded in generated (mirror) commit messages.
pub const GENERATED_TRAILER: &'static str = "RepoSync-Generated";

/// `<trailer>:`, what a marker line starts with once trimmed.
pub open spec fn marker_prefix() -> Seq<char> {
    GENERATED_TRAILER@ + ":"@
}

/// Where the line starting at `a` ends: the first `\n` at or after `a`, or
/// the end of `s`.
pub open spec fn line_end(s: Seq<char>, a: int) -> int
    decreases s.len() - a,
{
    if a >= s.len() {
        s.len() as int
    } else if a < 0 {
        line_end(s, 0)
    } else if s[a] == '\n' {
        a
    } else {
        line_end(s, a + 1)
    }
}

/// A line of `s` starts at `a`.
pub open spec fn line_start(s: Seq<char>, a: int) -> bool {
    a == 0 || (0 < a <= s.len() && s[a - 1] == '\n')
}

/// The line of `s` starting at `a`.
pub open spec fn line_at(s: Seq<char>, a: int) -> Seq<char> {
    s.subrange(a, line_end(s, a))
}

/// The source commit id a single line names, if it is a marker line: once
/// trimmed it starts with the marker prefix and the rest, trimmed, is not
/// empty.
pub open spec fn marker_id(line: Seq<char>) -> Option<Seq<char>> {
    let t = trim(line);
    if has_prefix(t, marker_prefix()) && trim(t.subrange(marker_prefix().len() as int, t.len() as int)).len() > 0 {
        Some(trim(t.subrange(marker_prefix().len() as int, t.len() as int)))
    } else {
        None
    }
}

/// The line of `s` at `a` is a marker line.
pub open spec fn marks_at(s: Seq<char>, a: int) -> bool {
    line_start(s, a) && marker_id(line_at(s, a)) is Some
}

/// `a` is the first marker line of `s`.
pub open spec fn first_mark(s: Seq<char>, a: int) -> bool {
    marks_at(s, a) && forall|b: int| 0 <= b < a ==> !marks_at(s, b)
}

/// The source commit id named by the first marker line of `s`, if any.
pub open spec fn generated_id(s: Seq<char>) -> Option<Seq<char>> {
    if exists|a: int| first_mark(s, a) {
        marker_id(line_at(s, choose|a: int| first_mark(s, a)))
    } else {
        None
    }
}

/// `message` followed by a blank line and the marker naming `source`.
pub open spec fn marked(message: Seq<char>, source: Seq<char>) -> Seq<char> {
    message + "\n\n"@ + GENERATED_TRAILER@ + ": "@ + source
}

/// Returns `message` with a `RepoSync-Generated: <source>` trailer appended.
pub fn mark_generated(message: &str, source: &CommitId) -> (r: String)
    ensures
        r@ == marked(message@, source@),
{
    let a = concat_chars(&chars_of(message), &chars_of("\n\n"));
    let b = concat_chars(&a, &chars_of(GENERATED_TRAILER));
    let c = concat_chars(&b, &chars_of(": "));
    let d = concat_chars(&c, &chars_of(source.as_str()));
    string_of(&d)
}

/// The id a single line names, if it is a marker line.
fn line_marker(line: &[char]) -> (r: Option<Vec<char>>)
    ensures
        match r {
            Some(id) => marker_id(line@) == Some(id@),
            None => marker_id(line@) is None,
        },
{
    let t = trim_chars(line);
    let p = concat_chars(&chars_of(GENERATED_TRAILER), &chars_of(":"));
    if starts_with(&t, &p) {
        let rest = sub_chars(&t, p.len(), t.len());
        let id = trim_chars(&rest);
        if id.len() > 0 {
            return Some(id);
        }
    }
    None
}

/// If `message` is a generated (mirror) commit, returns the source commit id
/// it was derived from: the id named by its first marker line.
pub fn generated_source(message: &str) -> (r: Option<CommitId>)
    ensures
        match generated_id(message@) {
            Some(id) => r is Some && r->0@ == id,
            None => r is None,
        },
{
    let v = chars_of(message);
    let n = v.len();
    let mut a: usize = 0;
    loop
        invariant
            n == v@.len(),
            v@ == message@,
            a <= n,
            line_start(v@, a as int),
            forall|b: int| 0 <= b < a ==> !marks_at(v@, b),
        decreases n - a,
    {
        let mut b: usize = a;
        while b < n && v[b] != '\n'
            invariant
                a <= b <= n,
                n == v@.len(),
                line_end(v@, a as int) == line_end(v@, b as int),
                forall|k: int| a <= k < b ==> v@[k] != '\n',
            decreases n - b,
        {
            b = b + 1;
        }
        let line = sub_chars(&v, a, b);
        match line_marker(&line) {
            Some(id) => {
                proof {
                    assert(first_mark(v@, a as int));
                    let c = choose|c: int| first_mark(v@, c);
                    assert(c == a) by {
                        if c < a {
                        } else if c > a {
                        }
                    }
                }
                return match CommitId::new(string_of(&id)) {
                    Ok(cid) => Some(cid),
                    Err(_) => None,
                };
            },
            None => {},
        }
        if b == n {
            proof {
                assert forall|c: int| #![trigger marks_at(v@, c)] 0 <= c <= n implies !marks_at(v@, c) by {
                    if c > a {
                        assert(v@[c - 1] != '\n');
                    }
                }
                assert(!exists|c: int| first_mark(v@, c));
            }
            return None;
        }
        proof {
            assert forall|c: int| 0 <= c < b + 1 implies !marks_at(v@, c) by {
                if c > a {
                    assert(v@[c - 1] != '\n');
                }
            }
        }
        a = b + 1;
    }
}


proof fn lemma_line_end_prefix(m: Seq<char>, s: Seq<char>, a: int)
    requires
        s.len() > m.len(),
        s.subrange(0, m.len() as int) == m,
        s[m.len() as int] == '\n',
        0 <= a <= m.len(),
    ensures
        line_end(s, a) == line_end(m, a),
    decreases m.len() - a,
{
    if a < m.len() {
        assert(s[a] == m[a]);
        if m[a] != '\n' {
            lemma_line_end_prefix(m, s, a + 1);
        }
    }
}

proof fn lemma_line_end_bounds(s: Seq<char>, a: int)
    requires
        0 <= a <= s.len(),
    ensures
        a <= line_end(s, a) <= s.len(),
    decreases s.len() - a,
{
    if a < s.len() && s[a] != '\n' {
        lemma_line_end_bounds(s, a + 1);
    }
}

proof fn lemma_line_end_no_newline(s: Seq<char>, a: int)
    requires
        0 <= a <= s.len(),
        forall|k: int| a <= k < s.len() ==> s[k] != '\n',
    ensures
        line_end(s, a) == s.len(),
    decreases s.len() - a,
{
    if a < s.len() {
        lemma_line_end_no_newline(s, a + 1);
    }
}

proof fn lemma_trim_keeps(s: Seq<char>)
    requires
        s.len() > 0,
        !is_ws(s[0]),
        !is_ws(s.last()),
    ensures
        trim(s) == s,
{
}

/// A message marked as generated from `id` is recognized as generated from
/// exactly `id`, provided the original message has no marker line of its
/// own and `id` is a single line with no surrounding whitespace: the loop
/// prevention of a two-way sync rests on this.
pub proof fn lemma_marker_round_trip(message: Seq<char>, id: Seq<char>)
    requires
        forall|a: int| !marks_at(message, a),
        id.len() > 0,
        !is_ws(id[0]),
        !is_ws(id.last()),
        !id.contains('\n'),
    ensures
        generated_id(marked(message, id)) == Some(id),
{
    reveal_strlit("RepoSync-Generated");
    reveal_strlit("\n\n");
    reveal_strlit(": ");
    reveal_strlit(":");
    let t = GENERATED_TRAILER@;
    let s = marked(message, id);
    let l = message.len() as int;
    let line = t + ": "@ + id;
    assert(s =~= message + seq!['\n', '\n'] + line);
    assert(s.subrange(0, l) =~= message);
    assert(s.subrange(0, l + 1) =~= message.push('\n'));
    let m1 = message.push('\n');
    // The lines of `message` are lines of `s`, unchanged.
    assert forall|a: int| 0 <= a <= l implies !marks_at(s, a) by {
        lemma_line_end_prefix(message, s, a);
        lemma_line_end_bounds(message, a);
        assert(!marks_at(message, a));
        if line_start(s, a) {
            assert(line_start(message, a));
            let e = line_end(message, a);
            assert forall|k: int| 0 <= k < e - a implies #[trigger] line_at(s, a)[k] == line_at(message, a)[k] by {
                assert(s.subrange(0, l)[a + k] == message[a + k]);
            }
            assert(line_at(s, a) =~= line_at(message, a));
        }
    }
    // The blank line between the message and the trailer.
    assert(line_end(s, l + 1) == l + 1);
    assert(line_at(s, l + 1) =~= Seq::<char>::empty());
    assert(!marks_at(s, l + 1)) by {
        assert(trim(Seq::<char>::empty()) =~= Seq::<char>::empty());
    }
    // The trailer line.
    assert(s.subrange(l + 2, s.len() as int) =~= line);
    assert forall|k: int| l + 2 <= k < s.len() implies s[k] != '\n' by {
        let j = k - (l + 2);
        assert(s[k] == line[j]);
        if j >= t.len() + 2 {
            assert(line[j] == id[j - t.len() - 2]);
        }
    }
    lemma_line_end_no_newline(s, l + 2);
    assert(line_at(s, l + 2) =~= line);
    assert(line.last() == id.last());
    lemma_trim_keeps(line);
    let rest = line.subrange(marker_prefix().len() as int, line.len() as int);
    assert(rest =~= seq![' '] + id);
    assert(trim_start(rest) == trim_start(id)) by {
        assert(rest.drop_first() =~= id);
    }
    assert(trim_start(id) == id);
    assert(trim(rest) == id);
    assert(has_prefix(line, marker_prefix())) by {
        assert(line.subrange(0, marker_prefix().len() as int) =~= marker_prefix());
    }
    assert(marks_at(s, l + 2));
    assert forall|b: int| 0 <= b < l + 2 implies !marks_at(s, b) by {
        if b <= l {
        } else {
            assert(b == l + 1);
        }
    }
    assert(first_mark(s, l + 2));
    let c = choose|c: int| first_mark(s, c);
    assert(c == l + 2) by {
        if c < l + 2 {
        } else if c > l + 2 {
        }
    }
}

} // verus!

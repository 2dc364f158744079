//! Package specs: `zod`, `zod@3.22.4`, `npm:@scope/pkg@1.0.0`,
//! `pypi:requests==2.31.0`, and the names packages are cached under.
use vstd::prelude::*;

use crate::package::error::{Failure, PackageError};
use crate::text::{
    chars_eq, chars_of, concat_chars, find_first, find_first_chars, find_last, find_last_char, lower,
    lower_char, lower_chars, string_of, sub_chars, trim, trim_chars,
};

verus! {

/// Registry identifier.
#[derive(Debug, Clone, Copy, PartialEq, Eq, Hash, Structural)]
pub enum Registry {
    Npm,
    Pypi,
}

/// The name a registry is written with.
pub open spec fn registry_name(r: Registry) -> Seq<char> {
    match r {
        Registry::Npm => "npm"@,
        Registry::Pypi => "pypi"@,
    }
}

/// The registry a prefix names, compared without regard to ASCII case.
pub open spec fn registry_of(s: Seq<char>) -> Option<Registry> {
    if lower(s) == "npm"@ {
        Some(Registry::Npm)
    } else if lower(s) == "pypi"@ {
        Some(Registry::Pypi)
    } else {
        None
    }
}

/// A character that PEP 503 folds into a single `-`.
pub open spec fn is_name_separator(c: char) -> bool {
    c == '-' || c == '_' || c == '.'
}

/// PEP 503 normalization of `s`: each run of `-`, `_` and `.` becomes one
/// `-`, and ASCII capitals are lowered; `after_dash` says whether the text
/// before `s` already ended in a folded separator.
pub open spec fn pypi_normal(s: Seq<char>, after_dash: bool) -> Seq<char>
    decreases s.len(),
{
    if s.len() == 0 {
        seq![]
    } else if is_name_separator(s[0]) {
        if after_dash {
            pypi_normal(s.drop_first(), true)
        } else {
            seq!['-'] + pypi_normal(s.drop_first(), true)
        }
    } else {
        seq![crate::text::ascii_lower(s[0])] + pypi_normal(s.drop_first(), false)
    }
}

/// The name a package is cached under.
pub open spec fn normal_name(r: Registry, name: Seq<char>) -> Seq<char> {
    match r {
        Registry::Npm => lower(name),
        Registry::Pypi => pypi_normal(name, false),
    }
}

impl Registry {
    /// The name this registry is written with.
    pub fn as_str(self) -> (r: &'static str)
        ensures
            r@ == registry_name(self),
    {
        match self {
            Registry::Npm => "npm",
            Registry::Pypi => "pypi",
        }
    }

    /// The registry `s` names (`npm` or `pypi`, in any ASCII case).
    pub fn from_str(s: &str) -> (r: Option<Registry>)
        ensures
            r == registry_of(s@),
    {
        let l = lower_chars(&chars_of(s));
        if chars_eq(&l, &chars_of("npm")) {
            Some(Registry::Npm)
        } else if chars_eq(&l, &chars_of("pypi")) {
            Some(Registry::Pypi)
        } else {
            None
        }
    }

    /// The name a package of this registry is cached under.
    pub fn normalize_name(self, name: &str) -> (r: String)
        ensures
            r@ == normal_name(self, name@),
    {
        match self {
            Registry::Npm => string_of(&lower_chars(&chars_of(name))),
            Registry::Pypi => normalize_pypi_name(name),
        }
    }
}

/// PEP 503 name normalization: runs of `-`, `_` and `.` become one `-`, and
/// ASCII capitals are lowered.
pub fn normalize_pypi_name(name: &str) -> (r: String)
    ensures
        r@ == pypi_normal(name@, false),
{
    let v = chars_of(name);
    let n = v.len();
    let mut out: Vec<char> = Vec::new();
    let mut last_dash = false;
    let mut i: usize = 0;
    assert(v@.subrange(0, n as int) =~= v@);
    while i < n
        invariant
            n == v@.len(),
            i <= n,
            out@ + pypi_normal(v@.subrange(i as int, n as int), last_dash) == pypi_normal(v@, false),
        decreases n - i,
    {
        let c = v[i];
        let ghost rest = v@.subrange(i as int, n as int);
        assert(rest.drop_first() =~= v@.subrange(i + 1, n as int));
        let ghost before = out@;
        if c == '-' || c == '_' || c == '.' {
            if !last_dash {
                out.push('-');
                last_dash = true;
                assert(out@ =~= before + seq!['-']);
            }
        } else {
            out.push(lower_char(c));
            last_dash = false;
            assert(out@ =~= before + seq![crate::text::ascii_lower(c)]);
        }
        i = i + 1;
    }
    assert(v@.subrange(n as int, n as int) =~= Seq::<char>::empty());
    assert(out@ + Seq::<char>::empty() =~= out@);
    string_of(&out)
}

/// A parsed package spec.
#[derive(Debug, PartialEq, Eq)]
pub struct PackageSpec {
    pub registry: Registry,
    pub name: String,
    pub version: Option<String>,
}

/// A copy of a string.
pub fn copy_string(s: &String) -> (r: String)
    ensures
        r == *s,
{
    s.clone()
}

/// A copy of an optional string.
pub fn copy_opt(s: &Option<String>) -> (r: Option<String>)
    ensures
        r == *s,
{
    match s {
        Some(v) => Some(v.clone()),
        None => None,
    }
}

impl Clone for PackageSpec {
    fn clone(&self) -> (r: Self)
        ensures
            r == *self,
    {
        PackageSpec { registry: self.registry, name: copy_string(&self.name), version: copy_opt(&self.version) }
    }
}

/// The characters of an optional string.
pub open spec fn opt_view(o: Option<String>) -> Option<Seq<char>> {
    match o {
        Some(v) => Some(v@),
        None => None,
    }
}

/// The characters of an optional string slice.
pub open spec fn opt_str_view(o: Option<&str>) -> Option<Seq<char>> {
    match o {
        Some(v) => Some(v@),
        None => None,
    }
}

/// The characters of an optional character vector.
pub open spec fn opt_chars_view(o: Option<Vec<char>>) -> Option<Seq<char>> {
    match o {
        Some(v) => Some(v@),
        None => None,
    }
}

/// What a package spec says: its registry, name and pinned version.
pub type SpecModel = (Registry, Seq<char>, Option<Seq<char>>);

/// A name and an optional version, or the failure splitting them gave.
pub type SplitModel = Result<(Seq<char>, Option<Seq<char>>), Failure>;

/// Splits an npm name from its version at the last `@` (after the scope's
/// `/` for a scoped `@scope/name`).
pub open spec fn split_npm(s: Seq<char>) -> SplitModel {
    if s.len() > 0 && s[0] == '@' {
        match find_first(s, "/"@) {
            Some(slash) => {
                let after = s.subrange(slash + 1, s.len() as int);
                match find_last(after, seq!['@']) {
                    Some(at) => {
                        let ver = after.subrange(at + 1, after.len() as int);
                        if ver.len() == 0 {
                            Err(Failure::InvalidSpec(s, "version after '@' must not be empty"@))
                        } else {
                            Ok((s.subrange(0, slash + 1 + at), Some(ver)))
                        }
                    },
                    None => Ok((s, None)),
                }
            },
            None => Ok((s, None)),
        }
    } else {
        match find_last(s, seq!['@']) {
            Some(at) => {
                let name = s.subrange(0, at);
                let ver = s.subrange(at + 1, s.len() as int);
                if ver.len() == 0 {
                    Err(Failure::InvalidSpec(s, "version after '@' must not be empty"@))
                } else if name.len() == 0 {
                    Err(Failure::InvalidSpec(s, "package name must not be empty"@))
                } else {
                    Ok((name, Some(ver)))
                }
            },
            None => Ok((s, None)),
        }
    }
}

/// Splits a PyPI name from its version at the first `==`, else as npm does.
pub open spec fn split_pypi(s: Seq<char>) -> SplitModel {
    match find_first(s, "=="@) {
        Some(idx) => {
            let ver = trim(s.subrange(idx + 2, s.len() as int));
            if ver.len() == 0 {
                Err(Failure::InvalidSpec(s, "version after '==' must not be empty"@))
            } else {
                Ok((trim(s.subrange(0, idx)), Some(ver)))
            }
        },
        None => split_npm(s),
    }
}

/// Splits a name from its version as the registry writes them.
pub open spec fn split_for(r: Registry, s: Seq<char>) -> SplitModel {
    match r {
        Registry::Npm => split_npm(s),
        Registry::Pypi => split_pypi(s),
    }
}

/// The version a spec pins: the inline one, else a non-empty override; an
/// override that differs from the inline version is refused.
pub open spec fn merge_version(inline: Option<Seq<char>>, over: Option<Seq<char>>, t: Seq<char>) -> Result<Option<Seq<char>>, Failure> {
    let over = match over {
        Some(v) => Some(trim(v)),
        None => None,
    };
    match inline {
        Some(v1) => match over {
            Some(v2) => if v2.len() > 0 && v1 != v2 {
                Err(Failure::InvalidSpec(t, "version mismatch: '"@ + v1 + "' vs '--version "@ + v2 + "'"@))
            } else {
                Ok(Some(v1))
            },
            None => Ok(Some(v1)),
        },
        None => match over {
            Some(v2) => if v2.len() > 0 { Ok(Some(v2)) } else { Ok(None) },
            None => Ok(None),
        },
    }
}

/// The registry and the text after its prefix, for a trimmed spec `t`.
pub open spec fn registry_part(t: Seq<char>) -> Result<(Registry, Seq<char>), Failure> {
    match find_first(t, ":"@) {
        Some(idx) => {
            let rest = t.subrange(idx + 1, t.len() as int);
            if rest.len() == 0 {
                Err(Failure::InvalidSpec(t, "missing package name after registry prefix"@))
            } else {
                match registry_of(t.subrange(0, idx)) {
                    Some(r) => Ok((r, rest)),
                    None => Err(Failure::UnsupportedRegistry(t.subrange(0, idx))),
                }
            }
        },
        None => Ok((Registry::Npm, t)),
    }
}

/// What parsing `spec` with the `--version` override `over` gives.
pub open spec fn parse_model(spec: Seq<char>, over: Option<Seq<char>>) -> Result<SpecModel, Failure> {
    let t = trim(spec);
    if t.len() == 0 {
        Err(Failure::InvalidSpec(t, "package spec must not be empty"@))
    } else {
        match registry_part(t) {
            Err(e) => Err(e),
            Ok((r, rem)) => match split_for(r, rem) {
                Err(e) => Err(e),
                Ok((name, inline)) => match merge_version(inline, over, t) {
                    Err(e) => Err(e),
                    Ok(version) => if name.len() == 0 {
                        Err(Failure::InvalidSpec(t, "package name must not be empty"@))
                    } else {
                        Ok((r, name, version))
                    },
                },
            },
        }
    }
}

/// The characters of a split result.
pub open spec fn split_view(r: Result<(Vec<char>, Option<Vec<char>>), PackageError>) -> SplitModel {
    match r {
        Ok((n, v)) => Ok((n@, opt_chars_view(v))),
        Err(e) => Err(e@),
    }
}

fn invalid(spec: &[char], reason: &str) -> (e: PackageError)
    ensures
        e@ == Failure::InvalidSpec(spec@, reason@),
{
    PackageError::InvalidSpec { spec: string_of(spec), reason: string_of(&chars_of(reason)) }
}

fn split_npm_name_version(s: &[char]) -> (r: Result<(Vec<char>, Option<Vec<char>>), PackageError>)
    ensures
        split_view(r) == split_npm(s@),
{
    proof {
        reveal_strlit("/");
    }
    if s.len() > 0 && s[0] == '@' {
        match find_first_chars(s, &chars_of("/")) {
            Some(slash) => {
                let after = sub_chars(s, slash + 1, s.len());
                match find_last_char(&after, '@') {
                    Some(at) => {
                        let ver = sub_chars(&after, at + 1, after.len());
                        if ver.len() == 0 {
                            return Err(invalid(s, "version after '@' must not be empty"));
                        }
                        let name = sub_chars(s, 0, slash + 1 + at);
                        return Ok((name, Some(ver)));
                    },
                    None => {},
                }
            },
            None => {},
        }
        assert(s@.subrange(0, s@.len() as int) =~= s@);
        return Ok((sub_chars(s, 0, s.len()), None));
    }
    match find_last_char(s, '@') {
        Some(at) => {
            let name = sub_chars(s, 0, at);
            let ver = sub_chars(s, at + 1, s.len());
            if ver.len() == 0 {
                return Err(invalid(s, "version after '@' must not be empty"));
            }
            if name.len() == 0 {
                return Err(invalid(s, "package name must not be empty"));
            }
            Ok((name, Some(ver)))
        },
        None => {
            assert(s@.subrange(0, s@.len() as int) =~= s@);
            Ok((sub_chars(s, 0, s.len()), None))
        },
    }
}

fn split_pypi_name_version(s: &[char]) -> (r: Result<(Vec<char>, Option<Vec<char>>), PackageError>)
    ensures
        split_view(r) == split_pypi(s@),
{
    proof {
        reveal_strlit("==");
    }
    let n = s.len();
    match find_first_chars(s, &chars_of("==")) {
        Some(idx) => {
            assert(crate::text::first_at(s@, "=="@, idx as int));
            assert("=="@.len() == 2);
            let ver = trim_chars(&sub_chars(s, idx + 2, n));
            if ver.len() == 0 {
                return Err(invalid(s, "version after '==' must not be empty"));
            }
            let name = trim_chars(&sub_chars(s, 0, idx));
            Ok((name, Some(ver)))
        },
        None => split_npm_name_version(s),
    }
}

fn split_name_version(registry: Registry, s: &[char]) -> (r: Result<(Vec<char>, Option<Vec<char>>), PackageError>)
    ensures
        split_view(r) == split_for(registry, s@),
{
    match registry {
        Registry::Npm => split_npm_name_version(s),
        Registry::Pypi => split_pypi_name_version(s),
    }
}


impl PackageSpec {
    /// What this spec says: registry, name and pinned version.
    pub open spec fn model(&self) -> SpecModel {
        (self.registry, self.name@, opt_view(self.version))
    }

    /// Parses `<spec>` with an optional `--version` override.
    ///
    /// Accepts `zod`, `zod@3.22.4`, `npm:zod`, `npm:@scope/pkg@1.0.0`,
    /// `pypi:requests`, `pypi:requests==2.31.0` and `pypi:requests@2.31.0`.
    pub fn parse(spec: &str, version_override: Option<&str>) -> (r: Result<PackageSpec, PackageError>)
        ensures
            match r {
                Ok(p) => parse_model(spec@, opt_str_view(version_override)) == Ok::<SpecModel, Failure>(p.model()),
                Err(e) => parse_model(spec@, opt_str_view(version_override)) == Err::<SpecModel, Failure>(e@),
            },
    {
        proof {
            reveal_strlit(":");
        }
        let t = trim_chars(&chars_of(spec));
        if t.len() == 0 {
            return Err(invalid(&t, "package spec must not be empty"));
        }
        let n = t.len();
        let (registry, remainder) = match find_first_chars(&t, &chars_of(":")) {
            Some(idx) => {
                assert(crate::text::first_at(t@, ":"@, idx as int));
                assert(":"@.len() == 1);
                let rest = sub_chars(&t, idx + 1, n);
                if rest.len() == 0 {
                    return Err(invalid(&t, "missing package name after registry prefix"));
                }
                let prefix = sub_chars(&t, 0, idx);
                match Registry::from_str(&string_of(&prefix)) {
                    Some(r) => (r, rest),
                    None => {
                        return Err(PackageError::UnsupportedRegistry { registry: string_of(&prefix) });
                    },
                }
            },
            None => {
                assert(t@.subrange(0, n as int) =~= t@);
                (Registry::Npm, sub_chars(&t, 0, n))
            },
        };
        assert(registry_part(t@) == Ok::<(Registry, Seq<char>), Failure>((registry, remainder@)));
        let (name, inline) = match split_name_version(registry, &remainder) {
            Ok(pair) => pair,
            Err(e) => {
                return Err(e);
            },
        };
        let over: Option<Vec<char>> = match version_override {
            Some(v) => Some(trim_chars(&chars_of(v))),
            None => None,
        };
        let version: Option<Vec<char>> = match inline {
            Some(v1) => match over {
                Some(v2) => {
                    if v2.len() > 0 && !chars_eq(&v1, &v2) {
                        let reason = concat_chars(
                            &concat_chars(&concat_chars(&concat_chars(&chars_of("version mismatch: '"), &v1), &chars_of("' vs '--version ")), &v2),
                            &chars_of("'"),
                        );
                        return Err(PackageError::InvalidSpec { spec: string_of(&t), reason: string_of(&reason) });
                    }
                    Some(v1)
                },
                None => Some(v1),
            },
            None => match over {
                Some(v2) => if v2.len() > 0 { Some(v2) } else { None },
                None => None,
            },
        };
        if name.len() == 0 {
            return Err(invalid(&t, "package name must not be empty"));
        }
        let version = match version {
            Some(v) => Some(string_of(&v)),
            None => None,
        };
        Ok(PackageSpec { registry, name: string_of(&name), version })
    }

    /// The name this package is cached under.
    pub fn normalized_name(&self) -> (r: String)
        ensures
            r@ == normal_name(self.registry, self.name@),
    {
        self.registry.normalize_name(self.name.as_str())
    }
}

proof fn lemma_pypi_normal_idempotent(s: Seq<char>, after_dash: bool)
    ensures
        pypi_normal(pypi_normal(s, after_dash), after_dash) == pypi_normal(s, after_dash),
    decreases s.len(),
{
    if s.len() > 0 {
        let rest = s.drop_first();
        if is_name_separator(s[0]) {
            lemma_pypi_normal_idempotent(rest, true);
            if !after_dash {
                let x = pypi_normal(rest, true);
                let out = seq!['-'] + x;
                assert(out[0] == '-');
                assert(out.drop_first() =~= x);
            }
        } else {
            lemma_pypi_normal_idempotent(rest, false);
            let c = crate::text::ascii_lower(s[0]);
            let x = pypi_normal(rest, false);
            let out = seq![c] + x;
            assert(out[0] == c);
            assert(out.drop_first() =~= x);
            assert(!is_name_separator(c));
            assert(crate::text::ascii_lower(c) == c);
        }
    }
}

/// Normalizing a package name twice gives what normalizing it once gives:
/// a cache name is its own cache name.
pub proof fn lemma_normal_name_idempotent(r: Registry, name: Seq<char>)
    ensures
        normal_name(r, normal_name(r, name)) == normal_name(r, name),
{
    match r {
        Registry::Npm => {
            assert(lower(lower(name)) =~= lower(name));
        },
        Registry::Pypi => {
            lemma_pypi_normal_idempotent(name, false);
        },
    }
}

/// A `--version` override completes the spec it is given with: a blank
/// override changes nothing; where the spec names no version a non-blank
/// override supplies it, trimmed; where the spec names version `w`, an
/// override that trims to `w` changes nothing and any other non-blank one
/// is refused.
pub proof fn lemma_parse_version_override(spec: Seq<char>, over: Seq<char>)
    requires
        parse_model(spec, None) is Ok,
    ensures
        ({
            let p = parse_model(spec, None)->Ok_0;
            let o = trim(over);
            &&& o.len() == 0 ==> parse_model(spec, Some(over)) == parse_model(spec, None)
            &&& (p.2 is None && o.len() > 0) ==> parse_model(spec, Some(over)) == Ok::<SpecModel, Failure>(
                (p.0, p.1, Some(o)),
            )
            &&& p.2 == Some(o) ==> parse_model(spec, Some(over)) == parse_model(spec, None)
            &&& (p.2 is Some && o.len() > 0 && p.2 != Some(o)) ==> parse_model(spec, Some(over)) is Err
        }),
{
}

/// A PyPI cache name: no `_`, `.` or ASCII capital, and no `--`.
pub open spec fn pypi_clean(s: Seq<char>) -> bool {
    &&& forall|i: int| 0 <= i < s.len() ==> #[trigger] s[i] != '_' && s[i] != '.' && !('A' <= s[i] <= 'Z')
    &&& forall|i: int| 0 <= i < s.len() - 1 ==> !(#[trigger] s[i] == '-' && s[i + 1] == '-')
}

proof fn lemma_pypi_normal_clean_from(s: Seq<char>, after_dash: bool)
    ensures
        pypi_clean(pypi_normal(s, after_dash)),
        after_dash && pypi_normal(s, after_dash).len() > 0 ==> pypi_normal(s, after_dash)[0] != '-',
        pypi_normal(s, after_dash).len() > 0 && pypi_normal(s, after_dash)[0] == '-' ==> s.len() > 0
            && is_name_separator(s[0]),
    decreases s.len(),
{
    if s.len() > 0 {
        let rest = s.drop_first();
        if is_name_separator(s[0]) {
            lemma_pypi_normal_clean_from(rest, true);
            if !after_dash {
                let t = pypi_normal(rest, true);
                let out = seq!['-'] + t;
                assert forall|i: int| 0 <= i < out.len() implies #[trigger] out[i] != '_' && out[i] != '.' && !(
                'A' <= out[i] <= 'Z') by {
                    if i > 0 {
                        assert(out[i] == t[i - 1]);
                    }
                }
                assert forall|i: int| 0 <= i < out.len() - 1 implies !(#[trigger] out[i] == '-' && out[i + 1] == '-') by {
                    if i > 0 {
                        assert(out[i] == t[i - 1] && out[i + 1] == t[i]);
                    } else {
                        assert(out[1] == t[0]);
                    }
                }
            }
        } else {
            lemma_pypi_normal_clean_from(rest, false);
            let c = crate::text::ascii_lower(s[0]);
            let t = pypi_normal(rest, false);
            let out = seq![c] + t;
            assert(c != '-' && c != '_' && c != '.' && !('A' <= c <= 'Z'));
            assert forall|i: int| 0 <= i < out.len() implies #[trigger] out[i] != '_' && out[i] != '.' && !('A' <= out[i]
                <= 'Z') by {
                if i > 0 {
                    assert(out[i] == t[i - 1]);
                }
            }
            assert forall|i: int| 0 <= i < out.len() - 1 implies !(#[trigger] out[i] == '-' && out[i + 1] == '-') by {
                if i > 0 {
                    assert(out[i] == t[i - 1] && out[i + 1] == t[i]);
                }
            }
        }
    }
}

/// A PyPI cache name has no `_`, `.` or ASCII capital and no `--`: every
/// run of separators became one `-` and every capital was lowered.
pub proof fn lemma_pypi_name_clean(name: Seq<char>)
    ensures
        pypi_clean(normal_name(Registry::Pypi, name)),
{
    lemma_pypi_normal_clean_from(name, false);
}

} // verus!

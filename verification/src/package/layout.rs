//! Where packages live in the cache: the cache root chosen from the
//! environment, and the directory layout under it.
use vstd::prelude::*;

use crate::package::error::{Failure, PackageError};
use crate::package::spec::{normal_name, opt_str_view, parse_model, registry_name, PackageSpec, SpecModel};
use crate::text::{blank, chars_of, concat_chars, is_blank, string_of};

verus! {

/// `part` appended to `base` as `PathBuf::push` does on Unix: an absolute
/// `part` replaces `base`; otherwise a `/` separates them unless `base` is
/// empty or already ends with one.
pub open spec fn path_joined(base: Seq<char>, part: Seq<char>) -> Seq<char> {
    if part.len() > 0 && part[0] == '/' {
        part
    } else if base.len() == 0 || base.last() == '/' {
        base + part
    } else {
        base + seq!['/'] + part
    }
}

/// Executable form of [`path_joined`].
pub fn join_path(base: &str, part: &str) -> (r: String)
    ensures
        r@ == path_joined(base@, part@),
{
    let b = chars_of(base);
    let p = chars_of(part);
    if p.len() > 0 && p[0] == '/' {
        return string_of(&p);
    }
    if b.len() == 0 || b[b.len() - 1] == '/' {
        return string_of(&concat_chars(&b, &p));
    }
    let mut v = b;
    v.push('/');
    string_of(&concat_chars(&v, &p))
}

/// The cache root: `$REPOSYNC_CACHE` when set and not blank, else
/// `$XDG_CACHE_HOME/reposync` when that is set and not blank, else
/// `<home>/.cache/reposync`, with `.` standing for an unknown home.
pub open spec fn cache_root_of(reposync_cache: Option<Seq<char>>, xdg_cache_home: Option<Seq<char>>, home: Option<Seq<char>>) -> Seq<char> {
    match reposync_cache {
        Some(v) if !blank(v) => v,
        _ => match xdg_cache_home {
            Some(v) if !blank(v) => path_joined(v, "reposync"@),
            _ => {
                let h = match home {
                    Some(h) => h,
                    None => "."@,
                };
                path_joined(path_joined(h, ".cache"@), "reposync"@)
            },
        },
    }
}

/// The cache root, given the values of `$REPOSYNC_CACHE` and
/// `$XDG_CACHE_HOME` and the home directory.
pub fn cache_root(reposync_cache: Option<&str>, xdg_cache_home: Option<&str>, home: Option<&str>) -> (r: String)
    ensures
        r@ == cache_root_of(opt_str_view(reposync_cache), opt_str_view(xdg_cache_home), opt_str_view(home)),
{
    if let Some(v) = reposync_cache {
        if !is_blank(&chars_of(v)) {
            return string_of(&chars_of(v));
        }
    }
    if let Some(v) = xdg_cache_home {
        if !is_blank(&chars_of(v)) {
            return join_path(v, "reposync");
        }
    }
    let h = match home {
        Some(h) => h,
        None => ".",
    };
    let c = join_path(h, ".cache");
    join_path(c.as_str(), "reposync")
}

/// `<root>/packages/<registry>/<normalized name>/<version>`.
pub open spec fn version_dir_of(root: Seq<char>, s: PackageSpec, version: Seq<char>) -> Seq<char> {
    path_joined(
        path_joined(path_joined(path_joined(root, "packages"@), registry_name(s.registry)), normal_name(s.registry, s.name@)),
        version,
    )
}

/// The directory holding one cached version of a package.
pub fn version_dir(root: &str, spec: &PackageSpec, version: &str) -> (r: String)
    ensures
        r@ == version_dir_of(root@, *spec, version@),
{
    let a = join_path(root, "packages");
    let b = join_path(a.as_str(), spec.registry.as_str());
    let c = join_path(b.as_str(), spec.normalized_name().as_str());
    join_path(c.as_str(), version)
}

/// `<root>/packages/<registry>/<normalized name>/<version>/package`: where
/// a resolved package is materialized.
pub fn package_dir(root: &str, spec: &PackageSpec, version: &str) -> (r: String)
    ensures
        r@ == path_joined(version_dir_of(root@, *spec, version@), "package"@),
{
    join_path(version_dir(root, spec, version).as_str(), "package")
}

/// The sentinel file that marks a complete extraction, beside the package
/// directory.
pub fn complete_marker(root: &str, spec: &PackageSpec, version: &str) -> (r: String)
    ensures
        r@ == path_joined(version_dir_of(root@, *spec, version@), ".complete"@),
{
    join_path(version_dir(root, spec, version).as_str(), ".complete")
}

/// The lock file that serializes writers of one cached version.
pub fn lock_path(root: &str, spec: &PackageSpec, version: &str) -> (r: String)
    ensures
        r@ == path_joined(version_dir_of(root@, *spec, version@), ".lock"@),
{
    join_path(version_dir(root, spec, version).as_str(), ".lock")
}

/// `<root>/packages/<registry>/<normalized name>`: all cached versions of a
/// package.
pub fn package_versions_dir(root: &str, spec: &PackageSpec) -> (r: String)
    ensures
        r@ == path_joined(path_joined(path_joined(root@, "packages"@), registry_name(spec.registry)), normal_name(spec.registry, spec.name@)),
{
    let a = join_path(root, "packages");
    let b = join_path(a.as_str(), spec.registry.as_str());
    join_path(b.as_str(), spec.normalized_name().as_str())
}

/// Which cache entries an eviction removes.
#[derive(Debug)]
pub enum Eviction {
    /// Every cached package.
    All,
    /// Every cached version of one package.
    AllVersions(PackageSpec),
    /// One cached version of one package.
    One(PackageSpec, String),
}

/// What an eviction request asks for: everything when `all` is set;
/// otherwise the parsed spec's versions, all of them when `all_versions` is
/// set or no version is pinned, else just the pinned one.
pub open spec fn eviction_of(spec: Seq<char>, over: Option<Seq<char>>, all_versions: bool, all: bool, e: Eviction) -> bool {
    if all {
        e is All
    } else {
        match parse_model(spec, over) {
            Ok(m) => match e {
                Eviction::AllVersions(s) => s.model() == m && (all_versions || m.2 is None),
                Eviction::One(s, v) => s.model() == m && !all_versions && m.2 == Some(v@),
                Eviction::All => false,
            },
            Err(_) => false,
        }
    }
}

/// Decides which cache entries to evict for `<spec>` (with an optional
/// `--version`), `--all-versions` and `--all`.
pub fn evict_spec(spec_str: &str, version_override: Option<&str>, all_versions: bool, all: bool) -> (r: Result<Eviction, PackageError>)
    ensures
        match r {
            Ok(e) => eviction_of(spec_str@, opt_str_view(version_override), all_versions, all, e),
            Err(e) => !all && parse_model(spec_str@, opt_str_view(version_override)) == Err::<SpecModel, Failure>(e@),
        },
{
    if all {
        return Ok(Eviction::All);
    }
    let spec = match PackageSpec::parse(spec_str, version_override) {
        Ok(s) => s,
        Err(e) => {
            return Err(e);
        },
    };
    if all_versions {
        return Ok(Eviction::AllVersions(spec));
    }
    match &spec.version {
        Some(v) => {
            let v2 = string_of(&chars_of(v.as_str()));
            Ok(Eviction::One(spec, v2))
        },
        None => Ok(Eviction::AllVersions(spec)),
    }
}

} // verus!

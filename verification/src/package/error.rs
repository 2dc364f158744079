//! Errors of package resolution, fetch and cache work, with the exit code
//! the command line reports for each.
use vstd::prelude::*;

use crate::text::{chars_of, concat_chars, string_of};

verus! {

/// Errors from package resolution, fetch and cache operations.
#[derive(Debug)]
pub enum PackageError {
    InvalidSpec { spec: String, reason: String },
    UnsupportedRegistry { registry: String },
    NotFound { registry: String, name: String },
    VersionNotFound { name: String, version: String },
    Network { url: String, cause: String },
    Integrity { name: String, version: String },
    Extraction { name: String, version: String, cause: String },
    Io { path: String, cause: String },
    Permission { path: String, cause: String },
}

/// The mathematical value of a [`PackageError`]: the same variant, with
/// each text as its characters.
pub enum Failure {
    InvalidSpec(Seq<char>, Seq<char>),
    UnsupportedRegistry(Seq<char>),
    NotFound(Seq<char>, Seq<char>),
    VersionNotFound(Seq<char>, Seq<char>),
    Network(Seq<char>, Seq<char>),
    Integrity(Seq<char>, Seq<char>),
    Extraction(Seq<char>, Seq<char>, Seq<char>),
    Io(Seq<char>, Seq<char>),
    Permission(Seq<char>, Seq<char>),
}

impl View for PackageError {
    type V = Failure;

    open spec fn view(&self) -> Failure {
        match self {
            PackageError::InvalidSpec { spec, reason } => Failure::InvalidSpec(spec@, reason@),
            PackageError::UnsupportedRegistry { registry } => Failure::UnsupportedRegistry(registry@),
            PackageError::NotFound { registry, name } => Failure::NotFound(registry@, name@),
            PackageError::VersionNotFound { name, version } => Failure::VersionNotFound(name@, version@),
            PackageError::Network { url, cause } => Failure::Network(url@, cause@),
            PackageError::Integrity { name, version } => Failure::Integrity(name@, version@),
            PackageError::Extraction { name, version, cause } => Failure::Extraction(name@, version@, cause@),
            PackageError::Io { path, cause } => Failure::Io(path@, cause@),
            PackageError::Permission { path, cause } => Failure::Permission(path@, cause@),
        }
    }
}

/// The exit code the command line reports for a failure.
pub open spec fn failure_exit_code(f: Failure) -> i32 {
    match f {
        Failure::InvalidSpec(..) | Failure::UnsupportedRegistry(..) => 2,
        Failure::NotFound(..) | Failure::VersionNotFound(..) => 3,
        Failure::Network(..) => 4,
        Failure::Integrity(..) => 5,
        Failure::Io(..) | Failure::Extraction(..) | Failure::Permission(..) => 6,
    }
}

/// The text a failure is reported with.
pub open spec fn failure_message(f: Failure) -> Seq<char> {
    match f {
        Failure::InvalidSpec(spec, reason) => "invalid package spec '"@ + spec + "': "@ + reason,
        Failure::UnsupportedRegistry(registry) => "unsupported registry '"@ + registry + "'"@,
        Failure::NotFound(registry, name) => "package '"@ + name + "' not found in registry '"@ + registry + "'"@,
        Failure::VersionNotFound(name, version) => "version '"@ + version + "' not found for '"@ + name + "'"@,
        Failure::Network(url, cause) => "failed to fetch "@ + url + ": "@ + cause,
        Failure::Integrity(name, version) => "integrity check failed for "@ + name + "@"@ + version,
        Failure::Extraction(name, version, cause) => "failed to extract "@ + name + "@"@ + version + ": "@ + cause,
        Failure::Io(path, cause) => "cache I/O error at "@ + path + ": "@ + cause,
        Failure::Permission(path, cause) => "permission denied writing cache at "@ + path + ": "@ + cause
            + ". hint: set $REPOSYNC_CACHE to a writable directory"@,
    }
}

fn join3(a: &str, b: &str, c: &str) -> (r: Vec<char>)
    ensures
        r@ == a@ + b@ + c@,
{
    concat_chars(&concat_chars(&chars_of(a), &chars_of(b)), &chars_of(c))
}

fn join5(a: &str, b: &str, c: &str, d: &str, e: &str) -> (r: Vec<char>)
    ensures
        r@ == a@ + b@ + c@ + d@ + e@,
{
    concat_chars(&concat_chars(&join3(a, b, c), &chars_of(d)), &chars_of(e))
}

impl PackageError {
    /// Exit code the command line uses for this error.
    pub fn exit_code(&self) -> (r: i32)
        ensures
            r == failure_exit_code(self@),
    {
        match self {
            PackageError::InvalidSpec { .. } | PackageError::UnsupportedRegistry { .. } => 2,
            PackageError::NotFound { .. } | PackageError::VersionNotFound { .. } => 3,
            PackageError::Network { .. } => 4,
            PackageError::Integrity { .. } => 5,
            PackageError::Io { .. } | PackageError::Extraction { .. } => 6,
            PackageError::Permission { .. } => 6,
        }
    }

    /// Human hint for unsupported registry errors.
    pub fn supported_registries() -> (r: &'static str)
        ensures
            r@ == "supported registries: npm, pypi"@,
    {
        "supported registries: npm, pypi"
    }

    /// The text this error is reported with.
    pub fn message(&self) -> (r: String)
        ensures
            r@ == failure_message(self@),
    {
        let v = match self {
            PackageError::InvalidSpec { spec, reason } => join5("invalid package spec '", spec.as_str(), "': ", reason.as_str(), ""),
            PackageError::UnsupportedRegistry { registry } => join3("unsupported registry '", registry.as_str(), "'"),
            PackageError::NotFound { registry, name } => join5("package '", name.as_str(), "' not found in registry '", registry.as_str(), "'"),
            PackageError::VersionNotFound { name, version } => join5("version '", version.as_str(), "' not found for '", name.as_str(), "'"),
            PackageError::Network { url, cause } => join5("failed to fetch ", url.as_str(), ": ", cause.as_str(), ""),
            PackageError::Integrity { name, version } => join5("integrity check failed for ", name.as_str(), "@", version.as_str(), ""),
            PackageError::Extraction { name, version, cause } => concat_chars(
                &join5("failed to extract ", name.as_str(), "@", version.as_str(), ": "),
                &chars_of(cause.as_str()),
            ),
            PackageError::Io { path, cause } => join5("cache I/O error at ", path.as_str(), ": ", cause.as_str(), ""),
            PackageError::Permission { path, cause } => join5(
                "permission denied writing cache at ",
                path.as_str(),
                ": ",
                cause.as_str(),
                ". hint: set $REPOSYNC_CACHE to a writable directory",
            ),
        };
        proof {
            reveal_strlit("");
            assert(v@ =~= failure_message(self@));
        }
        string_of(&v)
    }
}

} // verus!

//! The order of work that brings a package into the cache. A pinned
//! version is looked up in the cache first; otherwise, or on a miss, the
//! registry resolves the spec and the resolved version is looked up again.
//! Only on a miss is the archive downloaded; it is checked against the
//! registry's digest before it is extracted, and extracted before it is
//! moved into the cache. Each answer from the outside comes back as an
//! event; [`package_step`] decides what happens next.
use vstd::prelude::*;

use crate::model::blob::{hex_of, sha256_of};
use crate::package::error::{Failure, PackageError};
use crate::package::extract::{archive_extraction_of, extract_plan, outcome, step_models, StepModel, WriteStep};
use crate::package::layout::{package_dir, path_joined, version_dir_of};
use crate::package::registry::{
    check_tarball_url, npm_download_ok, verify_npm_download, verify_pypi_download, ResolvedPackage,
};
use crate::package::spec::{copy_string, PackageSpec, Registry};
use crate::text::{chars_of, has_prefix, string_of};

verus! {

/// Where the work on a package stands.
#[derive(Clone, Copy, Debug, PartialEq, Eq, Structural)]
pub enum PackagePhase {
    /// Waiting to hear whether the pinned version is cached.
    CheckPinned,
    /// Waiting for the registry's resolution.
    Resolving,
    /// Waiting to hear whether the resolved version is cached.
    CheckResolved,
    /// Waiting for the downloaded archive.
    Fetching,
    /// Waiting for the extraction steps to be carried out.
    Extracting,
    /// Waiting for the extracted tree to be moved into the cache.
    Materializing,
    /// The work is over.
    Finished,
}

/// The state of the work on a package.
#[derive(Debug)]
pub struct PackageState {
    pub phase: PackagePhase,
    /// The parsed spec.
    pub spec: PackageSpec,
    /// The cache root.
    pub root: String,
    /// The registry's resolution, once known.
    pub resolved: Option<ResolvedPackage>,
    /// The downloaded archive passed the registry's digest check.
    pub verified: bool,
}

/// What the outside reports back.
#[derive(Debug)]
pub enum PackageEvent {
    /// Whether the version asked about is completely cached.
    Cached(bool),
    /// The registry's resolution of the spec.
    Resolved(ResolvedPackage),
    /// The downloaded archive, and the temporary directory to extract it to.
    Downloaded { bytes: Vec<u8>, extract_dest: String },
    /// The extraction steps were carried out.
    Extracted,
    /// The extracted tree was moved into the cache; whether the package
    /// directory now exists.
    Materialized(bool),
}

/// What the work does next.
#[derive(Debug)]
pub enum PackageAction {
    /// Look up whether this version is completely cached.
    CheckCache(String),
    /// Ask the registry to resolve the spec.
    Resolve,
    /// Download the archive at this URL.
    Download(String),
    /// Carry out these extraction steps.
    Extract(Vec<WriteStep>),
    /// Move the extracted tree into the cache for this version.
    Materialize(String),
    /// Stop: the package is at this directory.
    Done(String),
    /// Stop with this error.
    Fail(PackageError),
    /// Stop: the event did not answer the last action.
    Halt,
}

/// The cache directory of `spec` at `version` under `root`.
pub open spec fn cached_dir(root: Seq<char>, spec: PackageSpec, version: Seq<char>) -> Seq<char> {
    path_joined(version_dir_of(root, spec, version), "package"@)
}

/// The downloaded `data` passes the registry's check for `p`: npm's
/// integrity (or its `shasum` sanity check), or PyPI's SHA-256 digest where
/// one is given.
pub open spec fn download_ok(registry: Registry, p: ResolvedPackage, data: Seq<u8>) -> bool {
    match registry {
        Registry::Npm => npm_download_ok(p, data),
        Registry::Pypi => match p.integrity {
            Some(expected) => hex_of(sha256_of(data)) == expected@,
            None => true,
        },
    }
}

/// The version a cache lookup in this phase is about.
pub open spec fn version_in_question(state: PackageState) -> Option<Seq<char>> {
    if state.phase == PackagePhase::CheckPinned {
        match state.spec.version {
            Some(v) => Some(v@),
            None => None,
        }
    } else {
        match state.resolved {
            Some(p) => Some(p.version@),
            None => None,
        }
    }
}

/// Starts the work on `spec` with cache root `root`: a pinned version is
/// looked up in the cache first, otherwise the registry is asked.
pub fn package_start(spec: PackageSpec, root: String) -> (r: (PackageState, PackageAction))
    ensures
        r.0.spec == spec,
        r.0.root == root,
        r.0.resolved is None,
        !r.0.verified,
        match spec.version {
            Some(v) => r.0.phase == PackagePhase::CheckPinned && (r.1 matches PackageAction::CheckCache(w) && w@ == v@),
            None => r.0.phase == PackagePhase::Resolving && r.1 is Resolve,
        },
{
    match &spec.version {
        Some(v) => {
            let w = copy_string(v);
            (PackageState { phase: PackagePhase::CheckPinned, spec, root, resolved: None, verified: false }, PackageAction::CheckCache(w))
        },
        None => (PackageState { phase: PackagePhase::Resolving, spec, root, resolved: None, verified: false }, PackageAction::Resolve),
    }
}

/// The next state and action of the work on a package after `event`.
///
/// A cache hit ends the work with the cached directory, without any more
/// network work. A pinned miss asks the registry; a resolved miss
/// downloads the archive (npm archives only over `https`). The archive is
/// checked against the registry's digest and fails the work with an
/// integrity error when it does not match; only a checked archive is
/// planned for extraction, only an extracted one moved into the cache, and
/// the work ends with the package directory once it exists.
pub fn package_step(state: PackageState, event: PackageEvent) -> (r: (PackageState, PackageAction))
    ensures
        r.0.spec == state.spec,
        r.0.root == state.root,
        // A cache hit ends the work with the cached directory.
        event matches PackageEvent::Cached(true) ==> ((state.phase == PackagePhase::CheckPinned || state.phase
            == PackagePhase::CheckResolved) && version_in_question(state) is Some ==> r.0.phase
            == PackagePhase::Finished && (r.1 matches PackageAction::Done(d) && d@ == cached_dir(
            state.root@,
            state.spec,
            version_in_question(state)->0,
        ))),
        event matches PackageEvent::Cached(false) ==> (state.phase == PackagePhase::CheckPinned ==> r.0.phase
            == PackagePhase::Resolving && r.1 is Resolve),
        event matches PackageEvent::Resolved(p) ==> (state.phase == PackagePhase::Resolving ==> r.0.phase
            == PackagePhase::CheckResolved && r.0.resolved == Some(p) && (r.1 matches PackageAction::CheckCache(v)
            && v@ == p.version@)),
        // A download follows only a cache miss of the resolved version.
        r.1 is Download ==> state.phase == PackagePhase::CheckResolved && event matches PackageEvent::Cached(false),
        r.1 matches PackageAction::Download(url) ==> state.resolved matches Some(p) && url@ == p.tarball_url@ && (
        state.spec.registry == Registry::Npm ==> has_prefix(url@, "https://"@)),
        // The archive is checked before it is planned for extraction.
        r.0.verified ==> state.verified || (state.phase == PackagePhase::Fetching && state.resolved is Some
            && (event matches PackageEvent::Downloaded { bytes, extract_dest } && download_ok(
            state.spec.registry,
            state.resolved->0,
            bytes@,
        ))),
        r.1 matches PackageAction::Extract(steps) ==> r.0.verified && state.phase == PackagePhase::Fetching
            && r.0.phase == PackagePhase::Extracting && (event matches PackageEvent::Downloaded {
            bytes,
            extract_dest,
        } && archive_extraction_of(
            extract_dest@,
            bytes@,
            Some("tgz"@),
            state.spec.name@,
            state.resolved->0.version@,
        ) == Ok::<Seq<StepModel>, Failure>(step_models(steps@))),
        event matches PackageEvent::Downloaded { bytes, extract_dest } ==> (state.phase == PackagePhase::Fetching
            && state.resolved is Some && !download_ok(state.spec.registry, state.resolved->0, bytes@) ==> r.0.phase
            == PackagePhase::Finished && (r.1 matches PackageAction::Fail(e) && e@ == Failure::Integrity(
            state.resolved->0.spec.name@,
            state.resolved->0.version@,
        ))),
        // Only an extracted, checked archive is moved into the cache.
        r.1 is Materialize ==> state.phase == PackagePhase::Extracting && state.verified && event is Extracted,
        event matches PackageEvent::Materialized(exists) ==> (state.phase == PackagePhase::Materializing
            && state.resolved is Some ==> r.0.phase == PackagePhase::Finished && {
            let d = cached_dir(state.root@, state.spec, state.resolved->0.version@);
            if exists {
                r.1 matches PackageAction::Done(x) && x@ == d
            } else {
                r.1 matches PackageAction::Fail(e) && e@ == Failure::Io(d, "materialized directory missing"@)
            }
        }),
        state.phase == PackagePhase::Finished ==> r.0.phase == PackagePhase::Finished && r.1 is Halt,
        // A miss of the resolved version downloads its archive.
        event matches PackageEvent::Cached(false) ==> (state.phase == PackagePhase::CheckResolved
            ==> match state.resolved {
            Some(p) => if state.spec.registry == Registry::Npm && !has_prefix(p.tarball_url@, "https://"@) {
                r.0.phase == PackagePhase::Finished && (r.1 matches PackageAction::Fail(e) && e@
                    == Failure::InvalidSpec(p.tarball_url@, "tarball URL must be https"@))
            } else {
                r.0.phase == PackagePhase::Fetching && r.0.resolved == state.resolved && (r.1 matches PackageAction::Download(
                    u,
                ) && u@ == p.tarball_url@)
            },
            None => r.0.phase == PackagePhase::Finished && r.1 is Halt,
        }),
        // A checked archive is planned for extraction.
        event matches PackageEvent::Downloaded { bytes, extract_dest } ==> (state.phase == PackagePhase::Fetching
            && state.resolved is Some && download_ok(state.spec.registry, state.resolved->0, bytes@) ==> match archive_extraction_of(
            extract_dest@,
            bytes@,
            Some("tgz"@),
            state.spec.name@,
            state.resolved->0.version@,
        ) {
            Ok(s) => r.0.phase == PackagePhase::Extracting && r.0.verified && r.0.resolved == state.resolved && (
            r.1 matches PackageAction::Extract(st) && step_models(st@) == s),
            Err(f) => r.0.phase == PackagePhase::Finished && (r.1 matches PackageAction::Fail(e) && e@ == f),
        }),
        // An extracted, checked archive is moved into the cache.
        event is Extracted ==> (state.phase == PackagePhase::Extracting && state.verified ==> match state.resolved {
            Some(p) => r.0.phase == PackagePhase::Materializing && r.0.resolved == state.resolved && (r.1 matches PackageAction::Materialize(
                v,
            ) && v@ == p.version@),
            None => r.0.phase == PackagePhase::Finished && r.1 is Halt,
        }),
{
    let PackageState { phase, spec, root, resolved, verified } = state;
    match (phase, event) {
        (PackagePhase::CheckPinned, PackageEvent::Cached(hit)) => {
            if hit {
                match &spec.version {
                    Some(v) => {
                        let d = package_dir(root.as_str(), &spec, v.as_str());
                        (PackageState { phase: PackagePhase::Finished, spec, root, resolved, verified }, PackageAction::Done(d))
                    },
                    None => (PackageState { phase: PackagePhase::Finished, spec, root, resolved, verified }, PackageAction::Halt),
                }
            } else {
                (PackageState { phase: PackagePhase::Resolving, spec, root, resolved, verified }, PackageAction::Resolve)
            }
        },
        (PackagePhase::Resolving, PackageEvent::Resolved(p)) => {
            let v = copy_string(&p.version);
            (PackageState { phase: PackagePhase::CheckResolved, spec, root, resolved: Some(p), verified }, PackageAction::CheckCache(v))
        },
        (PackagePhase::CheckResolved, PackageEvent::Cached(hit)) => {
            match resolved {
                Some(p) => {
                    if hit {
                        let d = package_dir(root.as_str(), &spec, p.version.as_str());
                        (PackageState { phase: PackagePhase::Finished, spec, root, resolved: Some(p), verified }, PackageAction::Done(d))
                    } else {
                        let url_ok = match spec.registry {
                            Registry::Npm => check_tarball_url(p.tarball_url.as_str()),
                            Registry::Pypi => Ok(()),
                        };
                        match url_ok {
                            Ok(()) => {
                                let url = copy_string(&p.tarball_url);
                                (PackageState { phase: PackagePhase::Fetching, spec, root, resolved: Some(p), verified }, PackageAction::Download(url))
                            },
                            Err(e) => (PackageState { phase: PackagePhase::Finished, spec, root, resolved: Some(p), verified }, PackageAction::Fail(e)),
                        }
                    }
                },
                None => (PackageState { phase: PackagePhase::Finished, spec, root, resolved: None, verified }, PackageAction::Halt),
            }
        },
        (PackagePhase::Fetching, PackageEvent::Downloaded { bytes, extract_dest }) => {
            match resolved {
                Some(p) => {
                    let checked = match spec.registry {
                        Registry::Npm => verify_npm_download(&p, bytes.as_slice()),
                        Registry::Pypi => verify_pypi_download(&p, bytes.as_slice()),
                    };
                    match checked {
                        Err(e) => (PackageState { phase: PackagePhase::Finished, spec, root, resolved: Some(p), verified }, PackageAction::Fail(e)),
                        Ok(()) => {
                            let plan = extract_plan(extract_dest.as_str(), bytes.as_slice(), Some("tgz"), spec.name.as_str(), p.version.as_str());
                            match plan {
                                Ok(steps) => (
                                    PackageState { phase: PackagePhase::Extracting, spec, root, resolved: Some(p), verified: true },
                                    PackageAction::Extract(steps),
                                ),
                                Err(e) => (
                                    PackageState { phase: PackagePhase::Finished, spec, root, resolved: Some(p), verified: true },
                                    PackageAction::Fail(e),
                                ),
                            }
                        },
                    }
                },
                None => (PackageState { phase: PackagePhase::Finished, spec, root, resolved: None, verified }, PackageAction::Halt),
            }
        },
        (PackagePhase::Extracting, PackageEvent::Extracted) => {
            match resolved {
                Some(p) if verified => {
                    let v = copy_string(&p.version);
                    (PackageState { phase: PackagePhase::Materializing, spec, root, resolved: Some(p), verified }, PackageAction::Materialize(v))
                },
                other => (PackageState { phase: PackagePhase::Finished, spec, root, resolved: other, verified }, PackageAction::Halt),
            }
        },
        (PackagePhase::Materializing, PackageEvent::Materialized(exists)) => {
            match resolved {
                Some(p) => {
                    let d = package_dir(root.as_str(), &spec, p.version.as_str());
                    let action = if exists {
                        PackageAction::Done(d)
                    } else {
                        PackageAction::Fail(PackageError::Io { path: d, cause: string_of(&chars_of("materialized directory missing")) })
                    };
                    (PackageState { phase: PackagePhase::Finished, spec, root, resolved: Some(p), verified }, action)
                },
                None => (PackageState { phase: PackagePhase::Finished, spec, root, resolved: None, verified }, PackageAction::Halt),
            }
        },
        (_, _) => (PackageState { phase: PackagePhase::Finished, spec, root, resolved, verified }, PackageAction::Halt),
    }
}

} // verus!

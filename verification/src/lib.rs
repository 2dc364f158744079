//! Verified core of RepoSync: the repository model, diffs, pipeline
//! configuration checks, policy checks, package specs, and the decisions
//! that drive history replay and synchronization.
pub mod model;
pub mod text;
pub mod entries;
pub mod diff;
pub mod config;
pub mod marker;
pub mod package;
pub mod policy;
pub mod git;
pub mod history;
pub mod sync;
pub mod migrate;
pub mod state;
pub mod workdir;

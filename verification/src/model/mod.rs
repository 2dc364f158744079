//! Repository model: paths, modes, blobs, commits, and snapshots.
pub mod error;
pub mod mode;
pub mod path;
pub mod blob;
pub mod commit;
pub mod snapshot;

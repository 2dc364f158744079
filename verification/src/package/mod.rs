//! Package sources: `npm` and `pypi` package specs, the cache layout, the
//! sandboxing of archive entries, and the checks a fetched archive must pass.
pub mod error;
pub mod spec;
pub mod layout;
pub mod archive;
pub mod extract;
pub mod acquire;
pub mod integrity;
pub mod registry;
pub mod cache;

//! Pipeline configuration: the schema and its semantic validation.
pub mod schema;
pub mod source;
pub mod validate;
pub mod pipeline;

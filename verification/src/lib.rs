//! Expose an application's in-memory configuration as a set of HTTP
//! resources: one index resource that lists the fields, and one resource per
//! field that supports reading and (unless suppressed) writing the field's
//! value.
//!
//! The crate is a schema-to-route compiler. A description of a struct's
//! fields and their annotations is resolved into a [`attributes::CompiledSchema`];
//! from the schema the crate derives the routing table, the per-field
//! serialization contract, and the validate / callback / commit pipeline that
//! runs on every write. The HTTP transport itself is left to the embedding
//! application; the handlers here are pure functions from request data and
//! the stored values to a response.

pub mod access;
pub mod attributes;
pub mod chars;
pub mod configs;
pub mod digits;
pub mod error;
pub mod index;
pub mod json_codec;
pub mod routes;
pub mod serde;
pub mod serializer;
pub mod store;
pub mod text_codec;
pub mod types;
pub mod value;

pub use crate::error::{ChoicesError, ChoicesResult, SchemaError};

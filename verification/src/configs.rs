//! Ready-made example configurations, one module per serialization
//! backend: the structs, their field declarations, and their initial
//! stores.

pub mod json;
pub mod text;

//! Compiles a JSON Schema document into one regular expression that accepts
//! the JSON texts conforming to the schema, for a subset of the keywords.
//!
//! `guidance` holds the dispatcher and the structural keywords,
//! `handle_types` the `type` keyword, `types` the fixed patterns, `json`
//! the values that schemas are made of. What a function hands back is
//! stated over sequences of characters and proved; the calls into `regex`
//! and `serde_json` stand in `trusted`, with contracts that are believed.
//! `theorems`, `language` and `object_language` hold what is proved of
//! every compilation.

pub mod error;
pub mod guidance;
pub mod handle_types;
pub mod json;
pub mod language;
pub mod object_language;
pub mod text;
pub mod theorems;
pub mod trusted;
pub mod types;

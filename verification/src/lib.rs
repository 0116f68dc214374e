//! Discovery and introspection of columnar tables stored in a directory tree.
//!
//! The crate holds the rules of the viewer: how a type descriptor yields a vector
//! dimension, how a schema becomes table details, how the outcomes of a walk are
//! gathered into tables and warnings, how fetched batches become rows, and how the
//! settings document is read and updated. Reading the disk and talking to the
//! storage engine are left to the caller, who hands over what was found.

pub mod commands;
pub mod descriptor;
pub mod introspect;
pub mod models;
pub mod sampler;
pub mod scanner;
pub mod schema;
pub mod settings;
pub mod text;

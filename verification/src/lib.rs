//! An interactive shell for registering tabular datasets under short names
//! and querying them: listing, schema introspection, previews, SQL, and
//! per-column summary statistics.
//!
//! The query engine itself (SQL parsing, planning, file decoding) is an
//! outside collaborator; this crate holds the logic that is engineered
//! here and proved: the connection-string grammar, the dataset catalog,
//! the describe/summary engine, the command dispatcher, and the session
//! step machine that the worker loop runs.

pub mod backend;
pub mod command;
pub mod conn;
pub mod describe;
pub mod error;
pub mod render;
pub mod session;
pub mod table;
pub mod text;

//! A phonebook of name/phone records with server-assigned ids.
//!
//! The crate verifies the logic of a small contact manager: the record
//! table and its insert/update/delete/list operations, the parsers for
//! ids, query strings and JSON request bodies, the SQL statement texts,
//! the command-line dispatcher with its tabular output, and the
//! decision layer of the JSON-over-HTTP API.  Database connections and
//! sockets live outside the library and hand it plain values.

pub mod cli;
pub mod config;
pub mod http;
pub mod json;
pub mod laws;
pub mod nums;
pub mod query;
pub mod record;
pub mod sql;
pub mod store;
pub mod text;

pub use record::Record;
pub use record::RecordView;

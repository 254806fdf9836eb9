//! Library for turning the schema of an embedded SQL database file into a
//! UML-style class diagram: one box per table, one row per column, laid out
//! left to right on a single page.
//!
//! Database access goes through a small set of trusted wrappers around
//! `rusqlite`; serializing the assembled page to diagram markup and writing
//! it out is left to the binary around this library.

pub mod diagram;
pub mod digits;
pub mod lite_type;
pub mod metadata;
pub mod page;

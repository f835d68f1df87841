//! Merging of semicolon-delimited expense tables.
//!
//! Rows are parsed from the bytes of a table, checked for their width and
//! appended to a dataset; a dataset is rendered back as one table under a
//! fixed header row.

pub mod ingest;
pub mod record;
pub mod render;

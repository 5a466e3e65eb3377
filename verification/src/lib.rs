//! Partitioned parallel table-copy engine.
//!
//! The library plans and renders everything a table copy decides on its own:
//! how a table's rows are partitioned across workers, how a partition is cut
//! into bounded fetches, the SQL text of every query a copy issues, the
//! literal form of every transferred value, and the buffering rules of the
//! single-stream fallback. Connections, threads and the terminal belong to
//! the binary around it; the library hands it plain values and query text.

pub mod batch;
pub mod config;
pub mod copy;
pub mod db;
pub mod multi_import;
pub mod query;
pub mod single_import;
pub mod text;

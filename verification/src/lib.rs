//! Query parsing, request dispatch and result bookkeeping for the full-text
//! search benchmark engines (LanceDB, Lance and Tantivy front ends).

pub mod text;
pub mod plus_terms;
pub mod fts_query;
pub mod lancedb_query;
pub mod numbers;
pub mod lance_query;
pub mod lance_query_laws;
pub mod lancedb_query_laws;
pub mod lancedb_serve;
pub mod lancedb_check;
pub mod lance_serve;
pub mod json;
pub mod ingest;
pub mod tantivy_check;
pub mod probe;
pub mod probe_cli;
pub mod timing;
pub mod serve_laws;
pub mod command_laws;

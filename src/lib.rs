//! Inspection of docpack archives: a code knowledge graph, its package
//! metadata and optional per-node documentation, with queries, statistics
//! and safe extraction of payload files.

pub mod seqs;
pub mod json;
pub mod text;
pub mod model;
pub mod index;
pub mod query;
pub mod stats;
pub mod extract;
pub mod archive;
pub mod decode;
pub mod docs;
pub mod loader;
pub mod generate;

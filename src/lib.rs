//! Long-term memory retrieval for an agent runtime: dimension rules of the
//! embedding table, hybrid (vector + full-text) score merging, curation and
//! rendering of recalled memories, and the agent-facing tool records.

pub mod error;
pub mod table;
pub mod search;
pub mod embedding;
pub mod recall;
pub mod ids;
pub mod tools;

//! Long-term memory for AI agents: the verified core of the memory store,
//! the knowledge graph and the fact pipeline.

pub mod api;
pub mod config;
pub mod db;
pub mod extract;
pub mod graph;
pub mod text;
pub mod json;
pub mod memory;
pub mod store;

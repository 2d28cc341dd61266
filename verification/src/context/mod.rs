//! Context management for the native agent: budgets, compaction helpers,
//! tool-output spill and transcript metadata.

pub mod budget;
pub mod checkpoint;
pub mod compact;
pub mod compact_llm;
pub mod hydrate;
pub mod message_memory;
pub mod migrate;
pub mod open_session;
pub mod policy;
pub mod session_memory;
pub mod spill;
pub mod store;
pub mod tool_prune;
pub mod transcript;

//! Verified core logic of the Codeg agent runtime: provider configuration,
//! code-intelligence selection, context budgeting and compaction helpers.

pub mod code_intel;
pub mod context;
pub mod json;
pub mod native_config;
pub mod native_shutdown;
pub mod path_text;
pub mod process_owner;
pub mod run_settled;
pub mod strmap;
pub mod text;
pub mod workflow_adapt;

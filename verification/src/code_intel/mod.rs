//! Project code intelligence: language-server selection, CodeGraph argv and
//! the MCP tool catalog.

pub mod codegraph;
pub mod config;
pub mod detect;
pub mod lsp_pool;
pub mod mcp_adapter;
pub mod mcp_tools;
pub mod supervisor;

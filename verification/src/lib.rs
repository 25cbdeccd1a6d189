//! An OpenAI-compatible proxy core: request conversion between the Chat
//! Completions and Responses wire formats, streaming event conversion,
//! model catalogue, skill selection support, hooks and MCP helpers.
pub mod text;
pub mod ids;
pub mod json;
pub mod mcp_client;
pub mod openai;
pub mod codex;
pub mod error;
pub mod hooks;
pub mod proxy;
pub mod sse;
pub mod skills;
pub mod config;
pub mod models;
pub mod a2a;
pub mod memory;
pub mod agui;
pub mod mcp;
pub mod acp;
pub mod cli;

//! Connects to tool-provider peers, gathers the tools they expose into one
//! catalogue and brokers calls to them, together with the chat-session,
//! configuration and key-handling rules of the surrounding assistant.

pub mod agent;
pub mod chat;
pub mod config;
pub mod mcp;
pub mod secure;
pub mod text;

//! The stored configuration of the assistant.

pub mod read_config;

use crate::mcp::transport::TransportConfig;
use vstd::prelude::*;

verus! {

/// The peers that the configuration names: each with its logical name and
/// the way to reach it, in order.
#[derive(Debug, Clone, PartialEq, Eq)]
pub struct McpConfig {
    pub servers: Vec<(String, TransportConfig)>,
}

/// What the configuration file holds.
#[derive(Debug, Clone, PartialEq, Eq)]
pub struct Config {
    /// The tool-provider peers.
    pub mcp: McpConfig,
    /// The key for the model provider, where one is stored.
    pub provider_api_key: Option<String>,
    /// The address of the model provider, where one is stored.
    pub provider_base_url: Option<String>,
}

} // verus!

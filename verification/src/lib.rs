//! Verified core of a context server: output digests, provider tool calls and the MCP bridge.

pub mod config;
pub mod ctx_provider;
pub mod ctx_provider_laws;
pub mod firewall;
pub mod firewall_laws;
pub mod json;
pub mod mcp_bridge;
pub mod mcp_bridge_laws;
pub mod provider;
pub mod text;
pub mod text_laws;

//! Configuration data model: the pieces of the gateway's per-user
//! configuration document that the panel reads and shows, and the shapes
//! handed to the front end.

use vstd::prelude::*;

verus! {

use std::collections::HashMap;

/// Agent model selection.
#[derive(Clone, Debug, PartialEq, Eq)]
pub struct AgentModelConfig {
    /// Primary model, written `provider/model-id`.
    pub primary: Option<String>,
}

/// Gateway configuration.
#[derive(Clone, Debug, PartialEq, Eq)]
pub struct GatewayConfig {
    /// Mode: local or cloud.
    pub mode: Option<String>,
    /// Authentication configuration.
    pub auth: Option<GatewayAuthConfig>,
}

/// Gateway authentication configuration.
#[derive(Clone, Debug, PartialEq, Eq)]
pub struct GatewayAuthConfig {
    pub mode: Option<String>,
    pub token: Option<String>,
}

/// One MCP server entry, in stdio or HTTP form.
#[derive(Clone, Debug, PartialEq, Eq)]
pub struct MCPConfig {
    /// Command to run, for stdio servers.
    pub command: String,
    /// Arguments, for stdio servers.
    pub args: Vec<String>,
    /// Environment variables.
    pub env: HashMap<String, String>,
    /// URL, for HTTP servers.
    pub url: String,
    /// Whether the entry is enabled.
    pub enabled: bool,
}

/// An MCP entry that does not say otherwise is enabled.
pub fn default_mcp_enabled() -> (b: bool)
    ensures
        b,
{
    true
}

/// Metadata of the configuration document.
#[derive(Clone, Debug, PartialEq, Eq)]
pub struct MetaConfig {
    pub last_touched_at: Option<String>,
    pub last_touched_version: Option<String>,
}

/// An official provider preset shown by the front end.
#[derive(Clone, Debug, PartialEq, Eq)]
pub struct OfficialProvider {
    /// Provider id, as written into the configuration.
    pub id: String,
    pub name: String,
    /// Icon, an emoji.
    pub icon: String,
    pub default_base_url: Option<String>,
    pub api_type: String,
    pub suggested_models: Vec<SuggestedModel>,
    pub requires_api_key: bool,
    pub docs_url: Option<String>,
}

/// A model recommended under an official provider.
#[derive(Clone, Debug, PartialEq, Eq)]
pub struct SuggestedModel {
    pub id: String,
    pub name: String,
    pub description: Option<String>,
    pub context_window: Option<u32>,
    pub max_tokens: Option<u32>,
    pub recommended: bool,
}

/// A provider as read back from the configuration document.
#[derive(Clone, Debug, PartialEq, Eq)]
pub struct ConfiguredProvider {
    /// Provider name: its key in the configuration.
    pub name: String,
    pub base_url: String,
    /// The key, masked for display.
    pub api_key_masked: Option<String>,
    pub has_api_key: bool,
    pub models: Vec<ConfiguredModel>,
}

/// A model as read back from the configuration document.
#[derive(Clone, Debug, PartialEq, Eq)]
pub struct ConfiguredModel {
    /// Full id, written `provider/model-id`.
    pub full_id: String,
    pub id: String,
    pub name: String,
    pub api_type: Option<String>,
    pub context_window: Option<u32>,
    pub max_tokens: Option<u32>,
    pub is_primary: bool,
}

/// The AI configuration overview handed to the front end.
#[derive(Clone, Debug, PartialEq, Eq)]
pub struct AIConfigOverview {
    pub primary_model: Option<String>,
    pub configured_providers: Vec<ConfiguredProvider>,
    pub available_models: Vec<String>,
}

/// A provider option shown by the older front-end views.
#[derive(Clone, Debug, PartialEq, Eq)]
pub struct AIProviderOption {
    pub id: String,
    pub name: String,
    /// Icon, an emoji.
    pub icon: String,
    pub default_base_url: Option<String>,
    pub models: Vec<AIModelOption>,
    pub requires_api_key: bool,
}

/// A model option shown by the older front-end views.
#[derive(Clone, Debug, PartialEq, Eq)]
pub struct AIModelOption {
    pub id: String,
    pub name: String,
    pub description: Option<String>,
    pub recommended: bool,
}

/// One environment variable entry.
#[derive(Clone, Debug, PartialEq, Eq)]
pub struct EnvConfig {
    pub key: String,
    pub value: String,
}

} // verus!

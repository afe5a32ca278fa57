//! The service's application configuration and its validation rule.  Reading
//! the environment stays with the caller; validation is a plain check on the
//! values.

use vstd::prelude::*;

use crate::text::str_eq;

verus! {

/// GitHub OAuth settings.
#[derive(Debug)]
pub struct GitHubConfig {
    pub client_id: String,
    pub client_secret: Option<String>,
}

/// Hosted-GPU settings of the service.
#[derive(Debug)]
pub struct HostedAiConfig {
    pub base_url: String,
    pub api_key: String,
    pub pool_id: String,
    pub overcommit: bool,
}

/// Agent-protocol socket settings.
#[derive(Debug)]
pub struct McpConfig {
    pub ws_host: String,
    pub ws_port: u16,
    pub api_key: Option<String>,
}

/// The HTTP service's bind address.
#[derive(Debug)]
pub struct ServiceConfig {
    pub host: String,
    pub port: u16,
}

/// The whole application configuration.
#[derive(Debug)]
pub struct AppConfig {
    pub github: GitHubConfig,
    pub hosted_ai: Option<HostedAiConfig>,
    pub mcp: McpConfig,
    pub service: ServiceConfig,
}

impl AppConfig {
    /// Checks that the configuration is fit for production: the GitHub client
    /// id must have been configured.
    pub fn validate(&self) -> (r: Result<(), String>)
        ensures
            r is Err <==> self.github.client_id@ == "not_configured"@,
            r is Err ==> r->Err_0@ == "GITHUB_CLIENT_ID not configured"@,
    {
        if str_eq(self.github.client_id.as_str(), "not_configured") {
            Err("GITHUB_CLIENT_ID not configured".to_owned())
        } else {
            Ok(())
        }
    }
}

} // verus!

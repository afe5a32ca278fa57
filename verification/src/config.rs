//! Orchestrator server configuration: the plain settings and the validity
//! checks applied to them.  File and environment loading stay with the
//! caller.

use vstd::prelude::*;

use crate::text::{has_prefix, str_starts_with};

verus! {

/// HTTP server settings.
#[derive(Debug)]
pub struct ServerConfig {
    pub host: String,
    pub port: u16,
    pub metrics_port: u16,
    pub max_concurrent_requests: usize,
    pub request_timeout_secs: u64,
}

impl ServerConfig {
    /// A server configuration is valid when its port and concurrency limit
    /// are nonzero.
    pub fn is_valid(&self) -> (r: bool)
        ensures
            r == (self.port != 0 && self.max_concurrent_requests != 0),
    {
        self.port != 0 && self.max_concurrent_requests != 0
    }
}

impl Default for ServerConfig {
    /// The default server: every interface, port 8080, metrics on 9090, 100
    /// concurrent requests, a 300-second timeout.
    fn default() -> (r: ServerConfig)
        ensures
            r.host@ == "0.0.0.0"@,
            r.port == 8080,
            r.metrics_port == 9090,
            r.max_concurrent_requests == 100,
            r.request_timeout_secs == 300,
    {
        ServerConfig {
            host: "0.0.0.0".to_owned(),
            port: 8080,
            metrics_port: 9090,
            max_concurrent_requests: 100,
            request_timeout_secs: 300,
        }
    }
}

/// Monitoring settings.
#[derive(Debug)]
pub struct MonitoringConfig {
    pub prometheus_enabled: bool,
    pub jaeger_enabled: bool,
    pub jaeger_endpoint: Option<String>,
    pub log_level: String,
    pub structured_logs: bool,
}

impl Default for MonitoringConfig {
    /// By default only the metrics exporter is on, logging structured at the
    /// `info` level.
    fn default() -> (r: MonitoringConfig)
        ensures
            r.prometheus_enabled,
            !r.jaeger_enabled,
            r.jaeger_endpoint is None,
            r.log_level@ == "info"@,
            r.structured_logs,
    {
        MonitoringConfig {
            prometheus_enabled: true,
            jaeger_enabled: false,
            jaeger_endpoint: None,
            log_level: "info".to_owned(),
            structured_logs: true,
        }
    }
}

/// Prompt-safety settings.
#[derive(Debug)]
pub struct SafetyConfig {
    pub redact_emails: bool,
    pub redact_phones: bool,
    pub strip_api_keys: bool,
    pub max_prompt_length: usize,
    pub blocked_patterns: Vec<String>,
}

impl Default for SafetyConfig {
    /// By default everything sensitive is redacted, prompts are capped at
    /// 100000 characters and no extra patterns are blocked.
    fn default() -> (r: SafetyConfig)
        ensures
            r.redact_emails,
            r.redact_phones,
            r.strip_api_keys,
            r.max_prompt_length == 100000,
            r.blocked_patterns@.len() == 0,
    {
        SafetyConfig {
            redact_emails: true,
            redact_phones: true,
            strip_api_keys: true,
            max_prompt_length: 100000,
            blocked_patterns: Vec::new(),
        }
    }
}

/// Response-cache settings.
#[derive(Debug)]
pub struct CacheConfig {
    pub enabled: bool,
    pub redis_url: Option<String>,
    pub ttl_seconds: u64,
    pub max_entries: usize,
}

impl Default for CacheConfig {
    /// The cache starts disabled, with an hour of life and room for 1000
    /// entries once it is turned on.
    fn default() -> (r: CacheConfig)
        ensures
            !r.enabled,
            r.redis_url is None,
            r.ttl_seconds == 3600,
            r.max_entries == 1000,
    {
        CacheConfig { enabled: false, redis_url: None, ttl_seconds: 3600, max_entries: 1000 }
    }
}

/// A hosted-GPU base URL must name an HTTP or HTTPS endpoint.
pub fn hosted_url_ok(base_url: &str) -> (r: bool)
    ensures
        r == (has_prefix(base_url@, "http://"@) || has_prefix(base_url@, "https://"@)),
{
    str_starts_with(base_url, "http://") || str_starts_with(base_url, "https://")
}

} // verus!

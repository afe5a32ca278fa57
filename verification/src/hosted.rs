//! The decision logic of the hosted-GPU connector: request shaping, the
//! retry/backoff policy, mock fallbacks and latency accounting.  The network
//! calls themselves live outside the library; every function here is a plain
//! computation on the values they carry.

use vstd::prelude::*;

use crate::text::{has_prefix, str_starts_with};

verus! {

/// Connector configuration.
#[derive(Debug)]
pub struct HostedAiConfig {
    pub base_url: String,
    pub api_key: String,
    pub pool: String,
    pub overcommit: bool,
    pub timeout_secs: u64,
    pub max_retries: u32,
}

/// The default request timeout, in seconds.
pub fn default_timeout() -> (r: u64)
    ensures
        r == 30,
{
    30
}

/// The default retry budget.
pub fn default_max_retries() -> (r: u32)
    ensures
        r == 3,
{
    3
}

/// A granted GPU allocation.
#[derive(Debug)]
pub struct GpuAllocationResponse {
    pub allocation_id: String,
    pub assigned_gpu: String,
    pub status: String,
    pub expires_at: Option<String>,
}

/// A finished hosted inference.
#[derive(Debug)]
pub struct HostedInferenceResponse {
    pub text: String,
    pub tokens_used: u32,
    pub duration_ms: u64,
    pub model_used: String,
}

/// Rolling connector counters.
#[derive(Debug, Clone)]
pub struct Metrics {
    pub allocations_total: u64,
    pub allocations_failed: u64,
    pub inference_total: u64,
    pub inference_failed: u64,
    pub average_latency_ms: u64,
}

impl Default for Metrics {
    /// All counters start at zero.
    fn default() -> (r: Metrics)
        ensures
            r.allocations_total == 0,
            r.allocations_failed == 0,
            r.inference_total == 0,
            r.inference_failed == 0,
            r.average_latency_ms == 0,
    {
        Metrics {
            allocations_total: 0,
            allocations_failed: 0,
            inference_total: 0,
            inference_failed: 0,
            average_latency_ms: 0,
        }
    }
}

/// The VRAM bounds of an allocation request: the minimum is the requested
/// amount, the maximum doubles it when overcommit is on; both are cut down to
/// 32 bits as the wire format demands.
pub fn allocation_vram_bounds(overcommit: bool, vram_mb: u64) -> (r: (u32, u32))
    requires
        overcommit ==> 2 * vram_mb <= u64::MAX,
    ensures
        r.0 == vram_mb % 0x1_0000_0000,
        r.1 == (if overcommit {
            2 * vram_mb
        } else {
            vram_mb as int
        }) % 0x1_0000_0000,
{
    let min = (vram_mb % 0x1_0000_0000) as u32;
    let max_raw: u64 = if overcommit {
        vram_mb * 2
    } else {
        vram_mb
    };
    let max = (max_raw % 0x1_0000_0000) as u32;
    (min, max)
}

/// An allocation id carries the mock marker when the real service was not
/// reachable.
pub fn is_mock_allocation(alloc_id: &str) -> (r: bool)
    ensures
        r == has_prefix(alloc_id@, "mock_"@),
{
    str_starts_with(alloc_id, "mock_")
}

/// A mock allocation id from a fresh UUID string.
pub fn mock_allocation_id(uuid_str: &str) -> (r: String)
    ensures
        r@ == "mock_"@ + uuid_str@,
{
    let mut r = "mock_".to_owned();
    r.append(uuid_str);
    r
}

/// The allocation record of the mock fallback.
pub fn mock_allocation_response(allocation_id: String) -> (r: GpuAllocationResponse)
    ensures
        r.allocation_id == allocation_id,
        r.assigned_gpu@ == "mock-gpu-001"@,
        r.status@ == "allocated"@,
        r.expires_at is None,
{
    GpuAllocationResponse {
        allocation_id,
        assigned_gpu: "mock-gpu-001".to_owned(),
        status: "allocated".to_owned(),
        expires_at: None,
    }
}

/// The model an inference is addressed to: the mock model for mock
/// allocations, automatic selection otherwise.
pub fn model_for_allocation(alloc_id: &str) -> (r: String)
    ensures
        r@ == (if has_prefix(alloc_id@, "mock_"@) {
            "mock-model"@
        } else {
            "auto"@
        }),
{
    if is_mock_allocation(alloc_id) {
        "mock-model".to_owned()
    } else {
        "auto".to_owned()
    }
}

/// The text of a mock inference response.
pub fn mock_inference_text(prompt: &str) -> (r: String)
    ensures
        r@ == "[Mock response for: "@ + prompt@ + "]"@,
{
    let mut r = "[Mock response for: ".to_owned();
    r.append(prompt);
    r.append("]");
    r
}

/// One more data point folded into a rolling latency average.
pub fn updated_average(average_ms: u64, total: u64, duration_ms: u64) -> (r: u64)
    requires
        total >= 1,
        average_ms * (total - 1) + duration_ms <= u64::MAX,
    ensures
        r == (average_ms * (total - 1) + duration_ms) / (total as int),
{
    (average_ms * (total - 1) + duration_ms) / total
}

/// Whether another attempt is allowed.
pub fn should_retry(retries: u32, max_retries: u32) -> (r: bool)
    ensures
        r == (retries < max_retries),
{
    retries < max_retries
}

/// The next backoff: doubled (saturating) and capped at ten seconds.
pub fn next_backoff_ms(backoff_ms: u64) -> (r: u64)
    ensures
        r == ({
            let doubled: int = if 2 * backoff_ms <= u64::MAX {
                2 * backoff_ms
            } else {
                u64::MAX as int
            };
            if doubled > 10000 {
                10000int
            } else {
                doubled
            }
        }),
{
    let doubled = if backoff_ms <= u64::MAX / 2 {
        backoff_ms * 2
    } else {
        u64::MAX
    };
    if doubled > 10000 {
        10000
    } else {
        doubled
    }
}

} // verus!

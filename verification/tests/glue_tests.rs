//! The smaller decision rules: strike planning, routing, the hosted-GPU
//! policy, permissions, the device flow, and configuration checks.

use harpoon::bridge::{fragment_from_context, FragmentContext};
use harpoon::config::{hosted_url_ok, ServerConfig};
use harpoon::covenant::{covenant_id_of, TargetRole};
use harpoon::engine::{FragmentInput, HarpoonEngine};
use harpoon::fusion::summarize_cycle;
use harpoon::hosted::{
    allocation_vram_bounds, default_max_retries, default_timeout, is_mock_allocation,
    mock_allocation_id, mock_allocation_response, mock_inference_text, model_for_allocation,
    next_backoff_ms, should_retry, updated_average,
};
use harpoon::metrics::{circuit_breaker_level, status_label, CircuitBreakerState};
use harpoon::mock_engine::MockEngine;
use harpoon::oauth::{poll_step, PollResponse, PollStep, TokenResponse};
use harpoon::orchestrate::{
    classification_of, is_complex_of, json_window, reasoning_text, route_model, DefaultEngine,
    ModelChoice,
};
use harpoon::service_config::{AppConfig, GitHubConfig, McpConfig, ServiceConfig};
use harpoon::strike::{advance_pr_status, select_strike_targets, strike_complete, PrStatus};
use harpoon::tenant::{permission_allows, Permissions};

#[test]
fn strike_targets_pick_an_anchor_then_agnos() {
    let repos: Vec<String> = ["r0", "r1", "r2", "r3", "r4", "r5", "r6"]
        .iter()
        .map(|s| s.to_string())
        .collect();
    let targets = select_strike_targets(&repos).unwrap();
    assert_eq!(targets.len(), 5);
    assert_eq!(targets[0].role, TargetRole::Anchor);
    assert_eq!(targets[0].repo, "r0");
    for t in &targets[1..] {
        assert_eq!(t.role, TargetRole::Agno);
        assert_eq!(t.rationale, "Selected based on covenant objectives");
    }
    assert!(select_strike_targets(&Vec::new()).is_err());
    assert_eq!(
        select_strike_targets(&Vec::new()).unwrap_err(),
        "No suitable targets found"
    );
}

#[test]
fn pr_statuses_advance_and_complete() {
    assert_eq!(advance_pr_status(PrStatus::Pending), PrStatus::Success);
    assert_eq!(advance_pr_status(PrStatus::Failure), PrStatus::Failure);
    assert!(strike_complete(&vec![PrStatus::Success, PrStatus::Success]));
    assert!(!strike_complete(&vec![PrStatus::Success, PrStatus::Pending]));
    assert!(strike_complete(&Vec::new()));
}

#[test]
fn covenant_ids_take_the_uuid_prefix() {
    assert_eq!(
        covenant_id_of("123e4567-e89b-12d3-a456-426614174000"),
        "cov-123e4567"
    );
}

#[test]
fn fragments_come_from_context_plus_text() {
    let ctx = FragmentContext {
        path: "src/a.py".to_string(),
        idx: 7,
        lines: "3-9".to_string(),
    };
    let f: FragmentInput = fragment_from_context(ctx, "body text".to_string());
    assert_eq!(f.path, "src/a.py");
    assert_eq!(f.idx, 7);
    assert_eq!(f.lines, "3-9");
    assert_eq!(f.body, "body text");
}

#[test]
fn routing_rules_match_the_model_split() {
    assert_eq!(route_model("simple", "code"), ModelChoice::Gemma);
    assert_eq!(route_model("complex", "extraction"), ModelChoice::Gemma);
    assert_eq!(route_model("moderate", "summary"), ModelChoice::Gemma);
    assert_eq!(route_model("complex", "classification"), ModelChoice::Gemma);
    assert_eq!(route_model("complex", "code"), ModelChoice::Qwen);
    assert_eq!(route_model("moderate", "reasoning"), ModelChoice::Qwen);
    assert!(is_complex_of("complex"));
    assert!(!is_complex_of("simple"));
}

#[test]
fn classification_defaults_fill_missing_fields() {
    let c = classification_of(None, None, 12);
    assert_eq!(c.category, "classification");
    assert_eq!(c.complexity, "simple");
    assert_eq!(c.latency_ms, 12);
    let c = classification_of(Some("code".to_string()), Some("complex".to_string()), 3);
    assert_eq!(c.category, "code");
    assert_eq!(c.complexity, "complex");
    assert_eq!(reasoning_text(&c.category, &c.complexity), "Category: code, Complexity: complex");
}

#[test]
fn json_windows_are_cut_between_the_braces() {
    assert_eq!(
        json_window("noise {\"a\": {\"b\": 1}} trailing"),
        Some("{\"a\": {\"b\": 1}}".to_string())
    );
    assert_eq!(json_window("no braces at all"), None);
    assert_eq!(json_window("} reversed {"), None);
    let _engine = DefaultEngine::new("any-repo").unwrap();
}

#[test]
fn hosted_policy_rules() {
    assert_eq!(default_timeout(), 30);
    assert_eq!(default_max_retries(), 3);
    assert_eq!(allocation_vram_bounds(false, 8192), (8192, 8192));
    assert_eq!(allocation_vram_bounds(true, 8192), (8192, 16384));
    assert!(is_mock_allocation("mock_abc"));
    assert!(!is_mock_allocation("real-abc"));
    assert_eq!(mock_allocation_id("abc"), "mock_abc");
    let alloc = mock_allocation_response("mock_abc".to_string());
    assert_eq!(alloc.assigned_gpu, "mock-gpu-001");
    assert_eq!(alloc.status, "allocated");
    assert_eq!(model_for_allocation("mock_abc"), "mock-model");
    assert_eq!(model_for_allocation("alloc-1"), "auto");
    assert_eq!(mock_inference_text("hi"), "[Mock response for: hi]");
    assert_eq!(updated_average(100, 2, 40), 70);
    assert!(should_retry(2, 3));
    assert!(!should_retry(3, 3));
    assert_eq!(next_backoff_ms(100), 200);
    assert_eq!(next_backoff_ms(6000), 10000);
    assert_eq!(next_backoff_ms(u64::MAX), 10000);
}

#[test]
fn metric_labels_and_breaker_levels() {
    assert_eq!(status_label(true), "success");
    assert_eq!(status_label(false), "failed");
    assert_eq!(circuit_breaker_level(CircuitBreakerState::Closed), 0);
    assert_eq!(circuit_breaker_level(CircuitBreakerState::Open), 1);
    assert_eq!(circuit_breaker_level(CircuitBreakerState::HalfOpen), 2);
}

#[test]
fn permissions_respect_admin_wildcard_and_lists() {
    let base = |admin: bool, ops: Vec<&str>| Permissions {
        can_read: true,
        can_write: false,
        can_delete: false,
        is_admin: admin,
        allowed_operations: ops.into_iter().map(|s| s.to_string()).collect(),
    };
    assert!(permission_allows(&base(true, vec![]), "anything"));
    assert!(permission_allows(&base(false, vec!["infer"]), "infer"));
    assert!(permission_allows(&base(false, vec!["*"]), "whatever"));
    assert!(!permission_allows(&base(false, vec!["infer"]), "delete"));
}

#[test]
fn device_flow_steps() {
    let token = TokenResponse {
        access_token: "SECRET-REDACTED".to_string(),
        token_type: "bearer".to_string(),
        scope: "repo".to_string(),
    };
    match poll_step(PollResponse::Success(token)) {
        PollStep::Done(t) => assert_eq!(t.token_type, "bearer"),
        _ => panic!("expected the token"),
    }
    assert!(matches!(
        poll_step(PollResponse::Pending {
            error: "authorization_pending".to_string(),
            error_description: None
        }),
        PollStep::Retry
    ));
    assert!(matches!(
        poll_step(PollResponse::Pending {
            error: "slow_down".to_string(),
            error_description: None
        }),
        PollStep::SlowDown
    ));
    match poll_step(PollResponse::Pending {
        error: "access_denied".to_string(),
        error_description: None,
    }) {
        PollStep::Fail(e) => assert_eq!(e, "access_denied"),
        _ => panic!("expected a failure"),
    }
}

#[test]
fn app_config_validation() {
    let cfg = AppConfig {
        github: GitHubConfig {
            client_id: "not_configured".to_string(),
            client_secret: None,
        },
        hosted_ai: None,
        mcp: McpConfig {
            ws_host: "127.0.0.1".to_string(),
            ws_port: 3002,
            api_key: None,
        },
        service: ServiceConfig {
            host: "0.0.0.0".to_string(),
            port: 8080,
        },
    };
    assert_eq!(cfg.validate().unwrap_err(), "GITHUB_CLIENT_ID not configured");
    let ok = AppConfig {
        github: GitHubConfig {
            client_id: "client-123".to_string(),
            client_secret: None,
        },
        ..cfg
    };
    assert!(ok.validate().is_ok());
}

#[test]
fn server_config_checks() {
    let mut server = ServerConfig {
        host: "0.0.0.0".to_string(),
        port: 8080,
        metrics_port: 9090,
        max_concurrent_requests: 100,
        request_timeout_secs: 300,
    };
    assert!(server.is_valid());
    server.port = 0;
    assert!(!server.is_valid());
    assert!(hosted_url_ok("https://api.example"));
    assert!(hosted_url_ok("http://localhost:1"));
    assert!(!hosted_url_ok("ftp://files.example"));
}

#[test]
fn mock_engine_answers() {
    let engine = MockEngine::new().unwrap();
    assert_eq!(
        engine.generate_mock("please return JSON now"),
        "{\"category\": \"code\", \"complexity\": \"simple\"}"
    );
    assert_eq!(
        engine.generate_mock("short prompt"),
        "[Mock response for: short prompt]"
    );
    let long = "x".repeat(80);
    let out = engine.generate_mock(&long);
    assert_eq!(out, format!("[Mock response for: {}]", "x".repeat(50)));
}

#[test]
fn fusion_summary_counts_and_mean() {
    let engine = HarpoonEngine::new_native(None, None).unwrap();
    let cycle = engine
        .run_native_cycle(
            vec![
                FragmentInput {
                    path: "a.py".to_string(),
                    idx: 0,
                    lines: "1".to_string(),
                    body: "def f():\n    return 1\n".to_string(),
                },
                FragmentInput {
                    path: "notes.txt".to_string(),
                    idx: 1,
                    lines: "2".to_string(),
                    body: "# x\n# y\n# z\n".to_string(),
                },
            ],
            5000,
            Some(3),
        )
        .unwrap();
    let summary = summarize_cycle(&cycle);
    assert_eq!(summary.absorbed_count, 1);
    assert_eq!(summary.pending_count, 1);
    assert_eq!(summary.iterations, 3);
    assert_eq!(summary.anchors, cycle.get_anchors().clone());
    assert_eq!(summary.hygiene_score, Some(5333));

    let empty_cycle = engine.run_native_cycle(vec![], 0, None).unwrap();
    let empty_summary = summarize_cycle(&empty_cycle);
    assert_eq!(empty_summary.hygiene_score, None);
    assert_eq!(empty_summary.absorbed_count, 0);
}

use chuk_tool_runtime::{RetryConfig, RetryLayer, RetryStep, ToolOutcome};
use chuk_tool_runtime::config::jittered;
use chuk_tool_runtime::layers::retry::{deadline_for, remaining_budget};
use serde_json::Value;

/// Zero-delay, deterministic config for fast tests.
fn cfg(max_retries: u32) -> RetryConfig {
    RetryConfig {
        max_retries,
        base_delay: 0,
        max_delay: 0,
        jitter: false,
        ..RetryConfig::default()
    }
}

/// Drives the retry decisions over scripted inner outcomes, as the invoker
/// does; returns the final outcome and how many inner calls were made.
fn run(layer: &RetryLayer<()>, script: Vec<ToolOutcome>) -> (ToolOutcome, usize) {
    let mut responses = script.into_iter();
    let mut next = || responses.next().unwrap_or_else(|| ToolOutcome::err("echo", "mock exhausted"));
    if layer.passes_through() {
        return (next(), 1);
    }
    let mut calls = 0usize;
    let mut attempt: u32 = 0;
    loop {
        let out = layer.stamp(next(), attempt);
        calls += 1;
        match layer.next_step(attempt, &out, None) {
            RetryStep::Return => return (out, calls),
            RetryStep::RetryAfter(_) => attempt += 1,
        }
    }
}

fn ok_value() -> Value {
    let mut m = serde_json::Map::new();
    m.insert("ok".to_string(), Value::Bool(true));
    Value::Object(m)
}

#[test]
fn backoff_with_jitter_stays_in_band() {
    let cfg = RetryConfig {
        base_delay: 1000,
        max_delay: 60_000,
        jitter: true,
        ..RetryConfig::default()
    };
    // attempt 0 => base 1s, jittered into [0.5s, 1.5s).
    for _ in 0..100 {
        let d = cfg.backoff(0);
        assert!((500..1500).contains(&d), "jittered delay out of band: {d}");
    }
}

#[test]
fn empty_retry_on_retries_all_non_skipped_errors() {
    let cfg = RetryConfig {
        retry_on: vec![],
        ..RetryConfig::default()
    };
    assert!(cfg.should_retry(Some("some totally unknown error")));
    // Skip list still wins even with an empty allow-list.
    assert!(!cfg.should_retry(Some("unauthorized")));
}

#[test]
fn should_retry_skip_precedence() {
    let c = RetryConfig::default();
    assert!(c.should_retry(Some("connection reset by peer")));
    assert!(!c.should_retry(Some("OAuth token expired"))); // skip wins (case-insensitive)
    assert!(!c.should_retry(Some("some unrelated error")));
    assert!(!c.should_retry(None));
}

#[test]
fn base_backoff_is_exponential_and_capped() {
    let c = RetryConfig {
        base_delay: 1000,
        max_delay: 10_000,
        jitter: false,
        ..RetryConfig::default()
    };
    assert_eq!(c.base_backoff(0), 1000);
    assert_eq!(c.base_backoff(1), 2000);
    assert_eq!(c.base_backoff(2), 4000);
    assert_eq!(c.base_backoff(10), 10_000); // capped
}

#[test]
fn retries_then_succeeds() {
    let layer = RetryLayer::new((), cfg(3));
    let (out, calls) = run(
        &layer,
        vec![
            ToolOutcome::err("echo", "connection reset"),
            ToolOutcome::err("echo", "timeout"),
            ToolOutcome::ok("echo", ok_value()),
        ],
    );
    assert!(out.success);
    assert_eq!(out.attempts, 3);
    assert_eq!(calls, 3);
}

#[test]
fn does_not_retry_non_retryable() {
    let layer = RetryLayer::new((), cfg(3));
    let (out, calls) = run(&layer, vec![ToolOutcome::err("echo", "401 Unauthorized")]);
    assert!(out.is_error());
    assert_eq!(out.attempts, 1);
    assert_eq!(calls, 1);
}

#[test]
fn exhausts_budget_on_persistent_failure() {
    let layer = RetryLayer::new((), cfg(2)); // 1 initial + 2 retries = 3 tries
    let (out, calls) = run(
        &layer,
        vec![
            ToolOutcome::err("echo", "connection refused"),
            ToolOutcome::err("echo", "connection refused"),
            ToolOutcome::err("echo", "connection refused"),
        ],
    );
    assert!(out.is_error());
    assert_eq!(out.attempts, 3);
    assert_eq!(calls, 3);
}

#[test]
fn retry_disabled_passes_through() {
    let mut c = cfg(3);
    c.enabled = false;
    let layer = RetryLayer::new((), c);
    let (out, calls) = run(&layer, vec![ToolOutcome::err("echo", "timeout")]);
    assert!(out.is_error());
    assert_eq!(calls, 1);
}

#[test]
fn no_retry_starts_once_the_deadline_budget_is_spent() {
    let c = RetryConfig { base_delay: 5000, max_delay: 30_000, jitter: false, ..RetryConfig::default() };
    let layer = RetryLayer::new((), c);
    let failed = ToolOutcome::err("echo", "timeout");
    // The backoff would end at or after the deadline: give up now.
    assert_eq!(layer.next_step(0, &failed, Some(1200)), RetryStep::Return);
    assert_eq!(layer.next_step(0, &failed, Some(5000)), RetryStep::Return);
    // The backoff ends before the deadline: wait it out, then retry.
    assert_eq!(layer.next_step(0, &failed, Some(5001)), RetryStep::RetryAfter(5000));
    assert_eq!(layer.next_step(0, &failed, None), RetryStep::RetryAfter(5000));
    assert_eq!(layer.next_step(1, &failed, None), RetryStep::RetryAfter(10_000));
    // Out of budget: return the last failure.
    assert_eq!(layer.next_step(0, &failed, Some(0)), RetryStep::Return);
    // Out of retries.
    assert_eq!(layer.next_step(3, &failed, None), RetryStep::Return);
}

#[test]
fn deadline_budget_counts_down_and_saturates() {
    let dl = deadline_for(1000, Some(500));
    assert_eq!(dl, Some(1500));
    assert_eq!(remaining_budget(dl, 1200), Some(300));
    assert_eq!(remaining_budget(dl, 2000), Some(0));
    assert_eq!(deadline_for(u64::MAX - 1, Some(10)), Some(u64::MAX));
    assert_eq!(remaining_budget(None, 5), None);
}

#[test]
fn jittered_factor_bounds_and_saturation() {
    assert_eq!(jittered(1000, 0), 500);
    assert_eq!(jittered(1000, u32::MAX), 1499);
    assert_eq!(jittered(1000, 0x8000_0000), 1000);
    assert_eq!(jittered(0, 12345), 0);
    assert_eq!(jittered(u64::MAX, u32::MAX), u64::MAX);
}

#[test]
fn default_retry_policy_matches_the_documented_defaults() {
    let c = RetryConfig::default();
    assert!(c.enabled);
    assert_eq!(c.max_retries, 3);
    assert_eq!(c.base_delay, 1000);
    assert_eq!(c.max_delay, 30_000);
    assert!(c.jitter);
    assert_eq!(c.retry_on, vec!["transport not initialized", "connection", "timeout", "refused", "reset", "closed"]);
    assert_eq!(c.skip_on, vec!["oauth", "unauthorized", "authentication", "invalid_grant", "no server found"]);
    assert_eq!(c.with_max_retries(7).max_retries, 7);
}

#[test]
fn retry_classification_is_case_insensitive() {
    let c = RetryConfig::default();
    assert!(c.should_retry(Some("CONNECTION lost")));
    assert!(c.should_retry(Some("Transport Not Initialized")));
    assert!(!c.should_retry(Some("No Server Found for tool 'x'")));
    let custom = RetryConfig { retry_on: vec!["Busy".to_string()], skip_on: vec![], ..RetryConfig::default() };
    assert!(custom.should_retry(Some("server busy")));
    assert!(!custom.should_retry(Some("timeout")));
}

#[test]
fn a_run_stops_at_a_success_or_after_the_last_retry() {
    let c = RetryConfig { max_retries: 2, base_delay: 0, max_delay: 0, jitter: false, ..RetryConfig::default() };
    let layer = RetryLayer::new((), c);
    let failed = ToolOutcome::err("echo", "connection reset");
    let ok = ToolOutcome::ok("echo", Value::Null);
    assert_eq!(layer.next_step(0, &failed, None), RetryStep::RetryAfter(0));
    assert_eq!(layer.next_step(1, &ok, None), RetryStep::Return);
    assert_eq!(layer.next_step(2, &failed, None), RetryStep::Return);
}

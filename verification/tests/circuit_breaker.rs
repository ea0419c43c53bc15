use chuk_tool_runtime::layers::circuit_breaker::blocked_outcome;
use chuk_tool_runtime::{CircuitBreakerConfig, CircuitBreakerLayer, CircuitState, ToolOutcome, CIRCUIT_OPEN_PREFIX};

fn cfg() -> CircuitBreakerConfig {
    CircuitBreakerConfig {
        failure_threshold: 3,
        success_threshold: 2,
        reset_timeout: 60_000,
        half_open_max_calls: 1,
        enabled: true,
    }
}

/// One call through the breaker at `now`, to an inner invoker that answers
/// with `inner_ok`; returns the outcome and whether the inner was reached.
fn call(layer: &mut CircuitBreakerLayer, tool: &str, inner_ok: bool, now: u64) -> (ToolOutcome, bool) {
    if !layer.acquire(tool, now) {
        return (blocked_outcome(tool), false);
    }
    let out = if inner_ok {
        ToolOutcome::ok(tool, serde_json::Value::Null)
    } else {
        ToolOutcome::err(tool, "boom")
    };
    layer.complete(tool, out.success, now);
    (out, true)
}

#[test]
fn opens_after_threshold_and_blocks() {
    let mut layer = CircuitBreakerLayer::new(cfg());
    for _ in 0..3 {
        let (o, _) = call(&mut layer, "x", false, 0);
        assert!(o.is_error());
    }
    assert_eq!(layer.snapshot("x", 0).unwrap().state, CircuitState::Open);

    // Now blocked: the call is short-circuited and never reaches the inner.
    let (o, reached) = call(&mut layer, "x", false, 0);
    assert!(o.is_error());
    assert!(o.error.unwrap().contains(CIRCUIT_OPEN_PREFIX));
    assert!(!reached, "blocked call must not hit inner");
}

#[test]
fn recovers_through_half_open_to_closed() {
    let mut layer = CircuitBreakerLayer::new(cfg());
    for _ in 0..3 {
        call(&mut layer, "x", false, 0);
    }
    assert_eq!(layer.snapshot("x", 0).unwrap().state, CircuitState::Open);

    let later = 60_000;
    // success_threshold = 2 probes to close.
    let (p1, _) = call(&mut layer, "x", true, later);
    assert!(p1.success);
    assert_eq!(layer.snapshot("x", later).unwrap().state, CircuitState::HalfOpen);
    let (p2, _) = call(&mut layer, "x", true, later);
    assert!(p2.success);
    assert_eq!(layer.snapshot("x", later).unwrap().state, CircuitState::Closed);
}

#[test]
fn half_open_failure_reopens() {
    let mut layer = CircuitBreakerLayer::new(cfg());
    for _ in 0..3 {
        call(&mut layer, "x", false, 0);
    }
    let later = 60_000;
    // Probe runs (allowed) and fails -> back to OPEN.
    let (probe, reached) = call(&mut layer, "x", false, later);
    assert!(probe.is_error());
    assert!(reached);
    assert_eq!(layer.snapshot("x", later).unwrap().state, CircuitState::Open);

    // Immediately blocked again.
    let (_, reached) = call(&mut layer, "x", false, later);
    assert!(!reached);
}

#[test]
fn breakers_are_per_tool() {
    let mut layer = CircuitBreakerLayer::new(cfg());
    for _ in 0..3 {
        call(&mut layer, "a", false, 0);
    }
    assert_eq!(layer.snapshot("a", 0).unwrap().state, CircuitState::Open);

    // "b" is unaffected and keeps succeeding.
    let (o, _) = call(&mut layer, "b", true, 0);
    assert!(o.success);
    assert_eq!(layer.snapshot("b", 0).unwrap().state, CircuitState::Closed);
}

#[test]
fn circuit_breaker_disabled_passes_through() {
    let mut c = cfg();
    c.enabled = false;
    let mut layer = CircuitBreakerLayer::new(c);
    let mut reached_count = 0;
    for _ in 0..5 {
        let (_, reached) = call(&mut layer, "x", false, 0);
        if reached {
            reached_count += 1;
        }
    }
    // Never trips; every call reached the inner.
    assert_eq!(reached_count, 5);
    assert!(layer.snapshot("x", 0).is_none());
}

#[test]
fn open_breaker_reports_time_until_probe() {
    let mut layer = CircuitBreakerLayer::new(cfg());
    for _ in 0..3 {
        call(&mut layer, "x", false, 1000);
    }
    let snap = layer.snapshot("x", 21_000).unwrap();
    assert_eq!(snap.state, CircuitState::Open);
    assert_eq!(snap.failure_count, 3);
    assert_eq!(snap.time_until_half_open, Some(40_000));
    // Just before the window elapses the call is still blocked.
    assert!(!layer.acquire("x", 60_999));
    assert_eq!(layer.snapshot("x", 61_000).unwrap().time_until_half_open, Some(0));
}

#[test]
fn half_open_limits_concurrent_probes() {
    let mut layer = CircuitBreakerLayer::new(cfg());
    for _ in 0..3 {
        call(&mut layer, "x", false, 0);
    }
    assert!(layer.acquire("x", 60_000)); // first probe admitted
    assert!(!layer.acquire("x", 60_000)); // second refused while it runs
    layer.complete("x", true, 60_000);
    assert!(layer.acquire("x", 60_000)); // slot released
}

#[test]
fn success_while_closed_clears_failures() {
    let mut layer = CircuitBreakerLayer::new(cfg());
    call(&mut layer, "x", false, 0);
    call(&mut layer, "x", false, 0);
    assert_eq!(layer.snapshot("x", 0).unwrap().failure_count, 2);
    call(&mut layer, "x", true, 0);
    assert_eq!(layer.snapshot("x", 0).unwrap().failure_count, 0);
    call(&mut layer, "x", false, 0);
    call(&mut layer, "x", false, 0);
    assert_eq!(layer.snapshot("x", 0).unwrap().state, CircuitState::Closed);
}

#[test]
fn blocked_outcome_names_the_tool() {
    let o = blocked_outcome("search");
    assert_eq!(o.error.as_deref(), Some("circuit breaker open for 'search'"));
    assert_eq!(o.tool, "search");
    assert!(!o.success);
}

#[test]
fn default_breaker_policy() {
    let c = CircuitBreakerConfig::default();
    assert!(c.enabled);
    assert_eq!(c.failure_threshold, 5);
    assert_eq!(c.success_threshold, 2);
    assert_eq!(c.reset_timeout, 60_000);
    assert_eq!(c.half_open_max_calls, 1);
}

#[test]
fn no_probe_is_admitted_with_a_zero_probe_limit() {
    let c = CircuitBreakerConfig { half_open_max_calls: 0, ..cfg() };
    let mut layer = CircuitBreakerLayer::new(c);
    for _ in 0..3 {
        call(&mut layer, "x", false, 0);
    }
    assert_eq!(layer.snapshot("x", 0).unwrap().state, CircuitState::Open);
    // Past the reset timeout, but there is no probe slot: still refused.
    let (o, reached) = call(&mut layer, "x", true, 60_000);
    assert!(o.is_error());
    assert!(!reached);
    assert_eq!(layer.snapshot("x", 60_000).unwrap().state, CircuitState::Open);
}

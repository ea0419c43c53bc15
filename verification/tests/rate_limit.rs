use chuk_tool_runtime::layers::Window;
use chuk_tool_runtime::{Acquire, RateLimitConfig, RateLimitLayer};

fn global_cfg(limit: u32, period: u64) -> RateLimitConfig {
    RateLimitConfig {
        enabled: true,
        global_limit: Some(limit),
        global_period: period,
        per_tool: Vec::new(),
    }
}

/// Both windows a call to `tool` at `now` must pass; `true` if it proceeds now.
fn try_call(layer: &mut RateLimitLayer, tool: &str, now: u64) -> Result<(), u64> {
    if let Acquire::Wait(w) = layer.acquire_global(now) {
        return Err(w);
    }
    match layer.acquire_tool(tool, now) {
        Acquire::Granted => Ok(()),
        Acquire::Wait(w) => Err(w),
    }
}

#[test]
fn under_limit_passes_through() {
    let mut layer = RateLimitLayer::new(global_cfg(5, 60_000));
    for _ in 0..3 {
        assert!(try_call(&mut layer, "x", 0).is_ok());
    }
}

#[test]
fn over_limit_blocks_until_window_slides() {
    let mut layer = RateLimitLayer::new(global_cfg(1, 60_000));
    // First call fills the window.
    assert!(try_call(&mut layer, "x", 0).is_ok());
    // Second call must wait for the window to slide.
    assert_eq!(try_call(&mut layer, "x", 0), Err(60_000), "second call should be blocked");
    assert_eq!(try_call(&mut layer, "x", 59_999), Err(1));
    assert!(try_call(&mut layer, "x", 60_000).is_ok());
}

#[test]
fn per_tool_windows_are_independent() {
    let cfg = RateLimitConfig {
        enabled: true,
        global_limit: None, // isolate per-tool behaviour
        global_period: 60_000,
        per_tool: vec![("a".to_string(), (1u32, 60_000u64))],
    };
    let mut layer = RateLimitLayer::new(cfg);
    // "a" is capped at 1/60s.
    assert!(try_call(&mut layer, "a", 0).is_ok());
    assert!(try_call(&mut layer, "a", 0).is_err(), "second 'a' should be blocked");
    // "b" has no limit and proceeds immediately.
    assert!(try_call(&mut layer, "b", 0).is_ok());
    assert!(try_call(&mut layer, "a", 60_000).is_ok());
}

#[test]
fn rate_limit_disabled_passes_through() {
    let mut cfg = global_cfg(1, 60_000);
    cfg.enabled = false;
    let mut layer = RateLimitLayer::new(cfg);
    for _ in 0..5 {
        assert!(try_call(&mut layer, "x", 0).is_ok()); // never throttled
    }
}

#[test]
fn window_holds_at_most_limit_within_period() {
    let mut w = Window::new(2, 1000);
    assert_eq!(w.try_acquire(0), Acquire::Granted);
    assert_eq!(w.try_acquire(300), Acquire::Granted);
    assert_eq!(w.try_acquire(500), Acquire::Wait(500));
    assert_eq!(w.try_acquire(999), Acquire::Wait(1));
    // The stamp from t=0 ages out at t=1000.
    assert_eq!(w.try_acquire(1000), Acquire::Granted);
    assert_eq!(w.try_acquire(1000), Acquire::Wait(300));
    assert_eq!(w.try_acquire(1300), Acquire::Granted);
}

#[test]
fn default_rate_limit_policy_is_off() {
    let c = RateLimitConfig::default();
    assert!(!c.enabled);
    assert_eq!(c.global_limit, Some(100));
    assert_eq!(c.global_period, 60_000);
    assert!(c.per_tool.is_empty());
    let on = RateLimitConfig::default().with_tool_limit("slow", 5, 60_000);
    assert!(on.enabled);
    assert_eq!(on.per_tool, vec![("slow".to_string(), (5, 60_000))]);
}

#[test]
fn per_tool_windows_take_the_last_configured_limit() {
    let config = RateLimitConfig {
        enabled: true,
        global_limit: None,
        global_period: 60_000,
        per_tool: vec![("a".to_string(), (5, 1000)), ("a".to_string(), (1, 60_000)), ("z".to_string(), (0, 10))],
    };
    let mut layer = RateLimitLayer::new(config);
    assert_eq!(layer.global_limit(), None);
    assert_eq!(layer.tool_limit("a"), Some(1));
    assert_eq!(layer.tool_limit("z"), Some(0));
    assert_eq!(layer.tool_limit("b"), None);
    assert_eq!(try_call(&mut layer, "a", 0), Ok(()));
    assert_eq!(try_call(&mut layer, "a", 1), Err(59_999));
    assert_eq!(try_call(&mut layer, "b", 1), Ok(()));
}

#[test]
fn a_clock_reading_behind_the_newest_stamp_is_taken_as_that_stamp() {
    let mut w = Window::new(1, 100);
    assert_eq!(w.try_acquire(1000), Acquire::Granted);
    // An earlier reading counts as time 1000: the window is still full.
    assert_eq!(w.try_acquire(900), Acquire::Wait(100));
    assert_eq!(w.try_acquire(1100), Acquire::Granted);
}

use chuk_tool_runtime::{args_key, CacheConfig, CacheLayer, ToolOutcome};
use serde_json::Value;

fn obj(pairs: &[(&str, i64)]) -> Value {
    let mut m = serde_json::Map::new();
    for (k, v) in pairs {
        m.insert(k.to_string(), Value::from(*v));
    }
    Value::Object(m)
}

fn cfg_for(tools: &[&str], ttl: Option<u64>) -> CacheConfig {
    CacheConfig {
        cacheable_tools: tools.iter().map(|s| s.to_string()).collect(),
        default_ttl: ttl,
        per_tool_ttl: Vec::new(),
    }
}

/// An inner invoker that answers `{"n": <call#>}` (or fails), counting calls.
struct Mock {
    calls: i64,
    fail: bool,
}

impl Mock {
    fn call(&mut self, tool: &str) -> ToolOutcome {
        self.calls += 1;
        if self.fail {
            ToolOutcome::err(tool, "boom")
        } else {
            ToolOutcome::ok(tool, obj(&[("n", self.calls)]))
        }
    }
}

/// One call through the cache at `now`, as the invoker makes it.
fn call(layer: &mut CacheLayer, inner: &mut Mock, tool: &str, args: &Value, now: u64) -> ToolOutcome {
    if let Some(hit) = layer.lookup_call(tool, args, now) {
        return hit;
    }
    let out = inner.call(tool);
    layer.store_call(tool, args, &out, now);
    out
}

#[test]
fn caches_successful_result() {
    let mut layer = CacheLayer::new(cfg_for(&["x"], Some(300_000)));
    let mut inner = Mock { calls: 0, fail: false };

    let first = call(&mut layer, &mut inner, "x", &Value::Null, 0);
    assert!(first.success && !first.from_cache);
    assert_eq!(first.result, Some(obj(&[("n", 1)])));

    let second = call(&mut layer, &mut inner, "x", &Value::Null, 0);
    assert!(second.from_cache);
    assert_eq!(second.result, Some(obj(&[("n", 1)]))); // same value, not n:2
    assert_eq!(inner.calls, 1); // inner only hit once
}

#[test]
fn errors_are_not_cached() {
    let mut layer = CacheLayer::new(cfg_for(&["x"], None));
    let mut inner = Mock { calls: 0, fail: true };
    call(&mut layer, &mut inner, "x", &Value::Null, 0);
    call(&mut layer, &mut inner, "x", &Value::Null, 0);
    assert_eq!(inner.calls, 2);
    assert_eq!(layer.len(0), 0);
}

#[test]
fn entries_expire_after_ttl() {
    let mut layer = CacheLayer::new(cfg_for(&["x"], Some(10_000)));
    let mut inner = Mock { calls: 0, fail: false };
    call(&mut layer, &mut inner, "x", &Value::Null, 0);
    assert_eq!(inner.calls, 1);

    let after = call(&mut layer, &mut inner, "x", &Value::Null, 10_000);
    assert!(!after.from_cache); // expired -> recomputed
    assert_eq!(inner.calls, 2);
}

#[test]
fn non_cacheable_tool_passes_through() {
    let mut layer = CacheLayer::new(cfg_for(&["x"], None));
    let mut inner = Mock { calls: 0, fail: false };
    let a = call(&mut layer, &mut inner, "y", &Value::Null, 0);
    let b = call(&mut layer, &mut inner, "y", &Value::Null, 0);
    assert!(!a.from_cache && !b.from_cache);
    assert_eq!(inner.calls, 2);
}

#[test]
fn distinct_args_are_distinct_entries() {
    let mut layer = CacheLayer::new(cfg_for(&["x"], None));
    let mut inner = Mock { calls: 0, fail: false };
    let a = call(&mut layer, &mut inner, "x", &obj(&[("q", 1)]), 0);
    let b = call(&mut layer, &mut inner, "x", &obj(&[("q", 2)]), 0);
    assert_eq!(a.result, Some(obj(&[("n", 1)])));
    assert_eq!(b.result, Some(obj(&[("n", 2)])));

    // Re-issuing the first args hits the cache (still n:1), no new inner call.
    let a2 = call(&mut layer, &mut inner, "x", &obj(&[("q", 1)]), 0);
    assert!(a2.from_cache);
    assert_eq!(a2.result, Some(obj(&[("n", 1)])));
    assert_eq!(inner.calls, 2);
    assert_eq!(layer.len(0), 2);
}

#[test]
fn args_key_is_order_independent() {
    let mut m1 = serde_json::Map::new();
    m1.insert("a".to_string(), Value::from(1));
    m1.insert("b".to_string(), Value::from(2));
    let mut m2 = serde_json::Map::new();
    m2.insert("b".to_string(), Value::from(2));
    m2.insert("a".to_string(), Value::from(1));
    let a = args_key(&Value::Object(m1));
    let b = args_key(&Value::Object(m2));
    assert_eq!(a, b);
}

#[test]
fn per_tool_ttl_overrides_default_and_len_counts_live_entries() {
    let cfg = CacheConfig::default()
        .cacheable_tool("x")
        .cacheable_tool("y")
        .with_default_ttl(100)
        .with_tool_ttl("y", 1000);
    assert_eq!(cfg.ttl_for("x"), Some(100));
    assert_eq!(cfg.ttl_for("y"), Some(1000));
    assert_eq!(cfg.ttl_for("z"), Some(100));
    assert!(cfg.is_cacheable("y") && !cfg.is_cacheable("z"));
    let mut layer = CacheLayer::new(cfg);
    let v = ToolOutcome::ok("x", Value::from(7));
    layer.store("x", "k", &v, 0);
    layer.store("y", "k", &ToolOutcome::ok("y", Value::from(8)), 0);
    assert_eq!(layer.len(50), 2);
    assert_eq!(layer.len(100), 1); // "x" expired at exactly its TTL
    assert!(layer.lookup("x", "k", 100).is_none());
    let hit = layer.lookup("y", "k", 999).unwrap();
    assert_eq!(hit.result, Some(Value::from(8)));
    assert!(hit.from_cache && hit.success);
}

#[test]
fn into_result_surfaces_success_and_error() {
    assert_eq!(ToolOutcome::ok("t", Value::from(1)).into_result(), Ok(Value::from(1)));
    assert_eq!(ToolOutcome::err("t", "bad").into_result(), Err("bad".to_string()));
}

#[test]
fn the_last_per_tool_ttl_wins() {
    let c = CacheConfig {
        cacheable_tools: vec!["q".to_string()],
        default_ttl: Some(10),
        per_tool_ttl: vec![("q".to_string(), 100), ("q".to_string(), 30)],
    };
    assert_eq!(c.ttl_for("q"), Some(30));
    assert_eq!(c.ttl_for("other"), Some(10));
}

#[test]
fn json_equal_arguments_share_an_entry() {
    let mut layer = CacheLayer::new(cfg_for(&["x"], None));
    let mut inner = Mock { calls: 0, fail: false };
    let first = call(&mut layer, &mut inner, "x", &obj(&[("a", 1), ("b", 2)]), 0);
    let second = call(&mut layer, &mut inner, "x", &obj(&[("b", 2), ("a", 1)]), 1);
    assert!(!first.from_cache);
    assert!(second.from_cache);
    assert_eq!(second.result, first.result);
    assert_eq!(inner.calls, 1);
}

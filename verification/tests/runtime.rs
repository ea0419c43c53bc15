use chuk_tool_runtime::mcp::{call_arguments, error_text, timeout_outcome};
use chuk_tool_runtime::{
    CacheConfig, CircuitBreakerConfig, LayerKind, McpInvoker, McpReply, RateLimitConfig, RetryConfig,
    RuntimeBuilder,
};
use serde_json::Value;

#[test]
fn empty_builder_is_passthrough() {
    assert!(RuntimeBuilder::new().layers().is_empty());
}

#[test]
fn layers_stack_innermost_first() {
    let b = RuntimeBuilder::new()
        .with_cache(CacheConfig::default())
        .with_rate_limit(RateLimitConfig::default())
        .with_circuit_breaker(CircuitBreakerConfig::default())
        .with_retry(RetryConfig::default());
    assert_eq!(
        b.layers(),
        vec![LayerKind::Retry, LayerKind::CircuitBreaker, LayerKind::RateLimit, LayerKind::Cache]
    );
    let only = RuntimeBuilder::new().with_cache(CacheConfig::default()).with_retry(RetryConfig::default());
    assert_eq!(only.layers(), vec![LayerKind::Retry, LayerKind::Cache]);
    let (r, cb, rl, c) = only.into_parts();
    assert!(r.is_some() && cb.is_none() && rl.is_none() && c.is_some());
}

#[test]
fn maps_success_result_to_ok() {
    let reply = McpReply { is_error: false, texts: vec![Some("hi".to_string())], raw_content: String::new(), payload: Value::from("whole") };
    let out = reply.to_outcome("echo");
    assert!(out.success && !out.from_cache);
    assert_eq!(out.result, Some(Value::from("whole")));
}

#[test]
fn maps_tool_error_to_err_with_text() {
    let reply = McpReply { is_error: true, texts: vec![Some("bad input".to_string())], raw_content: "[]".to_string(), payload: Value::Null };
    let out = reply.to_outcome("echo");
    assert!(out.is_error());
    assert_eq!(out.error.unwrap(), "bad input");
}

#[test]
fn error_text_falls_back_to_raw_json() {
    assert_eq!(error_text(&vec![None], "[{\"code\":42}]"), "[{\"code\":42}]");
    assert_eq!(error_text(&vec![Some("a".into()), None, Some("b".into())], "raw"), "a\nb");
}

#[test]
fn timeout_returns_error() {
    let out = timeout_outcome("echo");
    assert!(out.is_error());
    assert_eq!(out.error.unwrap(), "tool 'echo' timed out");
}

#[test]
fn invoker_keeps_its_client() {
    let inv = McpInvoker::new(7u8);
    assert_eq!(*inv.client(), 7);
}

#[test]
fn null_args_become_empty_object() {
    assert_eq!(call_arguments(serde_json::Value::Null), serde_json::Value::Object(serde_json::Map::new()));
    let mut m = serde_json::Map::new();
    m.insert("x".to_string(), serde_json::Value::from(1));
    let args = serde_json::Value::Object(m);
    assert_eq!(call_arguments(args.clone()), args);
}

//! Assembling a policy stack.
//!
//! The builder records which layers are wanted; the stack is assembled
//! innermost-first so calls pass `cache -> rate limiting -> circuit breaker ->
//! retry -> transport`.

use vstd::prelude::*;

use crate::config::{CacheConfig, CircuitBreakerConfig, RateLimitConfig, RetryConfig};
use crate::outcome::ToolOutcome;

verus! {

/// A policy layer.
#[derive(Debug, Clone, Copy, PartialEq, Eq, Structural)]
pub enum LayerKind {
    /// Retry with backoff.
    Retry,
    /// Per-tool circuit breaker.
    CircuitBreaker,
    /// Sliding-window rate limiting.
    RateLimit,
    /// Result cache.
    Cache,
}

/// Errors raised while building or configuring the runtime (tool-call
/// failures travel in `ToolOutcome`, not here).
#[derive(Debug, Clone)]
pub enum RuntimeError {
    /// A configuration value was invalid.
    Config(String),
}

/// Records the layers of a policy stack.
#[derive(Debug, Clone)]
pub struct RuntimeBuilder {
    retry: Option<RetryConfig>,
    circuit_breaker: Option<CircuitBreakerConfig>,
    rate_limit: Option<RateLimitConfig>,
    cache: Option<CacheConfig>,
}

/// The layers `present` selects, innermost first, in the fixed order
/// retry, circuit breaker, rate limiting, cache.
pub open spec fn layer_order(retry: bool, breaker: bool, rate: bool, cache: bool) -> Seq<LayerKind> {
    (if retry { seq![LayerKind::Retry] } else { seq![] }) + (if breaker {
        seq![LayerKind::CircuitBreaker]
    } else {
        seq![]
    }) + (if rate { seq![LayerKind::RateLimit] } else { seq![] }) + (if cache {
        seq![LayerKind::Cache]
    } else {
        seq![]
    })
}

impl RuntimeBuilder {
    /// The retry policy, if enabled.
    pub closed spec fn spec_retry(&self) -> Option<RetryConfig> {
        self.retry
    }

    /// The circuit-breaker policy, if enabled.
    pub closed spec fn spec_circuit_breaker(&self) -> Option<CircuitBreakerConfig> {
        self.circuit_breaker
    }

    /// The rate-limit policy, if enabled.
    pub closed spec fn spec_rate_limit(&self) -> Option<RateLimitConfig> {
        self.rate_limit
    }

    /// The cache policy, if enabled.
    pub closed spec fn spec_cache(&self) -> Option<CacheConfig> {
        self.cache
    }

    /// A builder with no layers.
    pub fn new() -> (b: Self)
        ensures
            b.spec_retry() is None,
            b.spec_circuit_breaker() is None,
            b.spec_rate_limit() is None,
            b.spec_cache() is None,
    {
        RuntimeBuilder { retry: None, circuit_breaker: None, rate_limit: None, cache: None }
    }

    /// Enable the retry layer with `config`.
    pub fn with_retry(self, config: RetryConfig) -> (b: Self)
        ensures
            b.spec_retry() == Some(config),
            b.spec_circuit_breaker() == self.spec_circuit_breaker(),
            b.spec_rate_limit() == self.spec_rate_limit(),
            b.spec_cache() == self.spec_cache(),
    {
        RuntimeBuilder { retry: Some(config), ..self }
    }

    /// Enable the circuit-breaker layer with `config` (it sits above retry).
    pub fn with_circuit_breaker(self, config: CircuitBreakerConfig) -> (b: Self)
        ensures
            b.spec_circuit_breaker() == Some(config),
            b.spec_retry() == self.spec_retry(),
            b.spec_rate_limit() == self.spec_rate_limit(),
            b.spec_cache() == self.spec_cache(),
    {
        RuntimeBuilder { circuit_breaker: Some(config), ..self }
    }

    /// Enable the rate-limiting layer with `config`.
    pub fn with_rate_limit(self, config: RateLimitConfig) -> (b: Self)
        ensures
            b.spec_rate_limit() == Some(config),
            b.spec_retry() == self.spec_retry(),
            b.spec_circuit_breaker() == self.spec_circuit_breaker(),
            b.spec_cache() == self.spec_cache(),
    {
        RuntimeBuilder { rate_limit: Some(config), ..self }
    }

    /// Enable the result-cache layer with `config` (outermost: a hit
    /// short-circuits every other layer).
    pub fn with_cache(self, config: CacheConfig) -> (b: Self)
        ensures
            b.spec_cache() == Some(config),
            b.spec_retry() == self.spec_retry(),
            b.spec_circuit_breaker() == self.spec_circuit_breaker(),
            b.spec_rate_limit() == self.spec_rate_limit(),
    {
        RuntimeBuilder { cache: Some(config), ..self }
    }

    /// The configured layers, innermost first.
    pub fn layers(&self) -> (v: Vec<LayerKind>)
        ensures
            v@ == layer_order(
                self.spec_retry() is Some,
                self.spec_circuit_breaker() is Some,
                self.spec_rate_limit() is Some,
                self.spec_cache() is Some,
            ),
    {
        let mut v: Vec<LayerKind> = Vec::new();
        if self.retry.is_some() {
            v.push(LayerKind::Retry);
        }
        if self.circuit_breaker.is_some() {
            v.push(LayerKind::CircuitBreaker);
        }
        if self.rate_limit.is_some() {
            v.push(LayerKind::RateLimit);
        }
        if self.cache.is_some() {
            v.push(LayerKind::Cache);
        }
        assert(v@ =~= layer_order(
            self.retry is Some,
            self.circuit_breaker is Some,
            self.rate_limit is Some,
            self.cache is Some,
        ));
        v
    }

    /// The four layer policies, for assembling the stack.
    pub fn into_parts(self) -> (p: (Option<RetryConfig>, Option<CircuitBreakerConfig>, Option<RateLimitConfig>, Option<CacheConfig>))
        ensures
            p == (self.spec_retry(), self.spec_circuit_breaker(), self.spec_rate_limit(), self.spec_cache()),
    {
        (self.retry, self.circuit_breaker, self.rate_limit, self.cache)
    }
}

impl Default for RuntimeBuilder {
    fn default() -> (b: Self)
        ensures
            b.spec_retry() is None,
            b.spec_circuit_breaker() is None,
            b.spec_rate_limit() is None,
            b.spec_cache() is None,
    {
        RuntimeBuilder::new()
    }
}

/// Whatever layers are configured, the retry layer is innermost and the cache
/// outermost, in the order retry, circuit breaker, rate limiting, cache.
pub proof fn lemma_layer_order(retry: bool, breaker: bool, rate: bool, cache: bool)
    ensures
        ({
            let o = layer_order(retry, breaker, rate, cache);
            &&& retry ==> o[0] == LayerKind::Retry
            &&& cache ==> o[o.len() - 1] == LayerKind::Cache
            &&& forall|i: int, j: int|
                0 <= i < j < o.len() ==> rank(#[trigger] o[i]) < rank(#[trigger] o[j])
        }),
{
    let o = layer_order(retry, breaker, rate, cache);
    assert forall|i: int, j: int| 0 <= i < j < o.len() implies rank(#[trigger] o[i]) < rank(#[trigger] o[j]) by {
        let a = if retry { seq![LayerKind::Retry] } else { seq![] };
        let b = if breaker { seq![LayerKind::CircuitBreaker] } else { seq![] };
        let c = if rate { seq![LayerKind::RateLimit] } else { seq![] };
        let d = if cache { seq![LayerKind::Cache] } else { seq![] };
        assert(o == a + b + c + d);
    }
}

/// Position of a layer in the stack, innermost = 0.
pub open spec fn rank(k: LayerKind) -> int {
    match k {
        LayerKind::Retry => 0,
        LayerKind::CircuitBreaker => 1,
        LayerKind::RateLimit => 2,
        LayerKind::Cache => 3,
    }
}

/// The outcome of a pinned call on a runtime that was not built over a router:
/// `"call_on requires a router-based runtime"`.
pub fn no_router_outcome(tool: &str) -> (out: ToolOutcome)
    ensures
        out.tool@ == tool@,
        !out.success,
        out.result is None,
        out.error matches Some(e) && e@ == "call_on requires a router-based runtime"@,
        out.attempts == 1,
        !out.from_cache,
{
    ToolOutcome::err(tool, "call_on requires a router-based runtime")
}

} // verus!

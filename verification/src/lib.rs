//! A tool-execution policy runtime: retry, circuit breaking, rate limiting,
//! result caching and first-wins routing across tool servers.
//!
//! Each policy is a decision procedure over its own plain state, verified
//! against its contract. The invoker that performs tool calls asks a layer
//! what to do (admit, wait, retry, serve from cache, route to a server) and
//! reports what happened; layers compose innermost-first as
//! `cache -> rate limiting -> circuit breaker -> retry -> transport`.
//! Durations and clock readings are whole milliseconds.

pub mod config;
pub mod isolation;
pub mod json;
pub mod layers;
pub mod mcp;
pub mod outcome;
pub mod routing;
pub mod runtime;
pub mod strmap;
pub mod text;

pub use config::{CacheConfig, CircuitBreakerConfig, RateLimitConfig, RetryConfig};
pub use layers::{
    args_key, Acquire, CacheLayer, CircuitBreakerLayer, CircuitSnapshot, CircuitState, RateLimitLayer,
    RetryLayer, RetryStep, CIRCUIT_OPEN_PREFIX,
};
pub use mcp::{McpInvoker, McpReply};
pub use outcome::ToolOutcome;
pub use routing::{Router, ToolRegistry, NO_SERVER_PREFIX};
pub use runtime::{LayerKind, RuntimeBuilder, RuntimeError};
pub use strmap::StrMap;

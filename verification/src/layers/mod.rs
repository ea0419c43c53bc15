//! Policy layers. Each is a verified decision procedure over its own state;
//! the invoker that performs the calls asks it what to do and reports back.
//! Build order (innermost to outermost): transport, retry, circuit breaker,
//! rate limiting, cache.

pub mod cache;
pub mod circuit_breaker;
pub mod rate_limit;
pub mod retry;

pub use circuit_breaker::{CircuitBreakerLayer, CircuitSnapshot, CircuitState, CIRCUIT_OPEN_PREFIX};
pub use rate_limit::{Acquire, RateLimitLayer, Window};
pub use cache::{args_key, CacheEntry, CacheLayer};
pub use retry::{RetryLayer, RetryStep};

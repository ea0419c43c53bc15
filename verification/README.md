# chuk_tool_runtime

A tool-execution policy runtime — retry with backoff, per-tool circuit
breaking, sliding-window rate limiting, result caching and first-wins routing
across tool servers — plus a sandbox runner whose guest reaches host tools only
through a token-checked broker.

## Layout

- `src/` — the library, verified with Verus. Every policy is a decision
  procedure over plain state (clock readings and durations are whole
  milliseconds): the circuit-breaker state machine, the rate-limit windows, the
  cache table, the retry schedule, the routing registry, the broker session,
  the wire framing, and the sandbox launch lines. The laws they keep are public
  proof functions next to the code they speak of (`lemma_*`).
- `tests/` — scenarios and edge cases run against the compiled library.
- `app/` — the async shell around the library: the `ToolInvoker` trait and the
  layer invokers that await, sleep and read the clock; the MCP transport over
  `chuk-mcp`; the broker socket, wire I/O and guest process; and the Python
  bindings.

Outside crates are reached from `src/` only through a few trusted wrappers
(`#[verifier::external_body]`), each documented with what its contract claims.

//! Policy configuration.
//!
//! Defaults suit an MCP tool-calling client. Retry error
//! classification is case-insensitive for both the retry list and the skip
//! list. All durations are whole milliseconds.

use vstd::prelude::*;

use crate::text::{chars_of, contains_chars, lowercase, seq_contains, str_lowercase};

verus! {

/// Error-message substrings that, by default, make a failure retryable.
pub open spec fn default_retry_on_spec() -> Seq<Seq<char>> {
    seq![
        "transport not initialized"@,
        "connection"@,
        "timeout"@,
        "refused"@,
        "reset"@,
        "closed"@,
    ]
}

/// Error-message substrings that must never be retried (checked first).
pub open spec fn default_skip_on_spec() -> Seq<Seq<char>> {
    seq!["oauth"@, "unauthorized"@, "authentication"@, "invalid_grant"@, "no server found"@]
}

/// The characters of each string, in order.
pub open spec fn strings_view(v: Seq<String>) -> Seq<Seq<char>> {
    v.map_values(|s: String| s@)
}

/// The default retry list, as owned strings.
pub fn default_retry_on() -> (v: Vec<String>)
    ensures
        strings_view(v@) == default_retry_on_spec(),
{
    let v = vec![
        "transport not initialized".to_owned(),
        "connection".to_owned(),
        "timeout".to_owned(),
        "refused".to_owned(),
        "reset".to_owned(),
        "closed".to_owned(),
    ];
    assert(strings_view(v@) =~= default_retry_on_spec());
    v
}

/// The default skip list, as owned strings.
pub fn default_skip_on() -> (v: Vec<String>)
    ensures
        strings_view(v@) == default_skip_on_spec(),
{
    let v = vec![
        "oauth".to_owned(),
        "unauthorized".to_owned(),
        "authentication".to_owned(),
        "invalid_grant".to_owned(),
        "no server found".to_owned(),
    ];
    assert(strings_view(v@) =~= default_skip_on_spec());
    v
}

/// `2^n`.
pub open spec fn two_pow(n: nat) -> nat
    decreases n,
{
    if n == 0 {
        1
    } else {
        2 * two_pow((n - 1) as nat)
    }
}

/// Some pattern of `pats`, lower-cased, occurs in the (already lower-cased) `lowered`.
pub open spec fn matches_any(lowered: Seq<char>, pats: Seq<Seq<char>>) -> bool {
    exists|i: int| 0 <= i < pats.len() && seq_contains(lowered, str_lowercase(#[trigger] pats[i]))
}

/// The smaller of two integers.
pub open spec fn min_int(a: int, b: int) -> int {
    if a <= b {
        a
    } else {
        b
    }
}

/// Retry-with-backoff policy.
#[derive(Debug, Clone)]
pub struct RetryConfig {
    /// Whether the layer is active.
    pub enabled: bool,
    /// Maximum number of retries after the initial attempt.
    pub max_retries: u32,
    /// Base backoff delay, in milliseconds.
    pub base_delay: u64,
    /// Backoff ceiling, in milliseconds.
    pub max_delay: u64,
    /// Multiply each delay by a random factor in `[0.5, 1.5)`.
    pub jitter: bool,
    /// Substrings that make an error retryable (empty = retry all errors).
    pub retry_on: Vec<String>,
    /// Substrings that make an error non-retryable (takes precedence).
    pub skip_on: Vec<String>,
}

impl RetryConfig {
    /// Whether a failure whose message has characters `err` is retried: no
    /// skip pattern occurs in it (case-insensitively), and either the retry
    /// list is empty or one of its patterns occurs in it.
    pub open spec fn retryable(&self, err: Seq<char>) -> bool {
        let lowered = str_lowercase(err);
        &&& !matches_any(lowered, strings_view(self.skip_on@))
        &&& (self.retry_on@.len() == 0 || matches_any(lowered, strings_view(self.retry_on@)))
    }

    /// `min(base_delay * 2^attempt, max_delay)`.
    pub open spec fn spec_base_backoff(&self, attempt: nat) -> int {
        min_int(self.base_delay * two_pow(attempt), self.max_delay as int)
    }

    /// The policy's defaults: enabled, 3 retries, 1 s base, 30 s ceiling,
    /// jitter on, and the default retry and skip lists.
    pub open spec fn is_default(&self) -> bool {
        &&& self.enabled
        &&& self.max_retries == 3
        &&& self.base_delay == 1000
        &&& self.max_delay == 30_000
        &&& self.jitter
        &&& strings_view(self.retry_on@) == default_retry_on_spec()
        &&& strings_view(self.skip_on@) == default_skip_on_spec()
    }

    /// Whether an error with message `error` should be retried. `None` means
    /// the call succeeded, so there is nothing to retry.
    pub fn should_retry(&self, error: Option<&str>) -> (b: bool)
        ensures
            b == (error matches Some(e) && self.retryable(e@)),
    {
        let err = match error {
            None => return false,
            Some(e) => e,
        };
        let lowered = chars_of(lowercase(err).as_str());
        if pattern_matches_any(&lowered, &self.skip_on) {
            return false;
        }
        if self.retry_on.len() == 0 {
            return true;
        }
        pattern_matches_any(&lowered, &self.retry_on)
    }

    /// Exponential backoff for a 0-based `attempt`, before jitter:
    /// `min(base_delay * 2^attempt, max_delay)`.
    pub fn base_backoff(&self, attempt: u32) -> (d: u64)
        ensures
            d == self.spec_base_backoff(attempt as nat),
    {
        if self.base_delay == 0 {
            assert(self.base_delay * two_pow(attempt as nat) == 0);
            return 0;
        }
        let max = self.max_delay as u128;
        let mut v: u128 = self.base_delay as u128;
        let mut i: u32 = 0;
        assert(two_pow(0) == 1);
        assert(v == self.base_delay * two_pow(0));
        while i < attempt
            invariant
                i <= attempt,
                v == self.base_delay * two_pow(i as nat),
                v <= max || i == 0,
                max == self.max_delay,
                self.base_delay >= 1,
                v >= two_pow(i as nat),
                v <= u64::MAX,
            decreases attempt - i,
        {
            if v > max {
                proof {
                    lemma_two_pow_monotone(i as nat, attempt as nat);
                    lemma_mul_le(self.base_delay as int, two_pow(i as nat) as int, two_pow(attempt as nat) as int);
                }
                return self.max_delay;
            }
            let next = v * 2;
            i = i + 1;
            assert(two_pow(i as nat) == 2 * two_pow((i - 1) as nat));
            assert(next == self.base_delay * two_pow(i as nat)) by (nonlinear_arith)
                requires
                    next == v * 2,
                    v == self.base_delay * two_pow((i - 1) as nat),
                    two_pow(i as nat) == 2 * two_pow((i - 1) as nat),
            ;
            if next > max {
                proof {
                    lemma_two_pow_monotone(i as nat, attempt as nat);
                    lemma_mul_le(self.base_delay as int, two_pow(i as nat) as int, two_pow(attempt as nat) as int);
                }
                return self.max_delay;
            }
            v = next;
        }
        if v > max {
            return self.max_delay;
        }
        v as u64
    }

    /// Backoff for `attempt`, applying a random factor in `[0.5, 1.5)` when
    /// jitter is enabled (and the base delay when no random sample can be had).
    pub fn backoff(&self, attempt: u32) -> (d: u64)
        ensures
            !self.jitter ==> d == self.spec_base_backoff(attempt as nat),
            self.jitter ==> d == self.spec_base_backoff(attempt as nat) || exists|sample: u32|
                d == #[trigger] jitter_spec(self.spec_base_backoff(attempt as nat) as nat, sample),
            self.jitter ==> self.spec_base_backoff(attempt as nat) / 2 <= d,
            self.jitter && self.spec_base_backoff(attempt as nat) > 0 ==> 2 * d < 3
                * self.spec_base_backoff(attempt as nat),
    {
        let base = self.base_backoff(attempt);
        if self.jitter {
            match random_u32() {
                Some(sample) => {
                    let d = jittered(base, sample);
                    proof {
                        lemma_jitter_band(base, sample);
                        assert(d == jitter_spec(self.spec_base_backoff(attempt as nat) as nat, sample));
                    }
                    d
                },
                None => base,
            }
        } else {
            base
        }
    }
}

/// `base * (1/2 + sample / 2^32)`, rounded down and capped at `u64::MAX`.
pub open spec fn jitter_spec(base: nat, sample: u32) -> int {
    let exact = (base * (0x8000_0000 + sample)) / 0x1_0000_0000;
    min_int(exact, u64::MAX as int)
}

/// A jittered delay: `base` scaled by `1/2 + sample / 2^32`, so by a factor in
/// `[0.5, 1.5)`.
pub fn jittered(base: u64, sample: u32) -> (d: u64)
    ensures
        d == jitter_spec(base as nat, sample),
{
    let factor: u128 = 0x8000_0000u128 + sample as u128;
    assert(base * factor <= 0xffff_ffff_ffff_ffff * 0x1_ffff_ffff) by (nonlinear_arith)
        requires
            base <= 0xffff_ffff_ffff_ffffu64,
            factor <= 0x1_ffff_ffff,
    ;
    let exact: u128 = (base as u128 * factor) / 0x1_0000_0000u128;
    if exact > u64::MAX as u128 {
        u64::MAX
    } else {
        exact as u64
    }
}

/// A jittered delay lies in `[base / 2, 3 * base / 2)` (the upper bound strict
/// when `base > 0`).
pub proof fn lemma_jitter_band(base: u64, sample: u32)
    ensures
        base / 2 <= jitter_spec(base as nat, sample),
        base > 0 ==> 2 * jitter_spec(base as nat, sample) < 3 * base,
{
    let f: int = 0x8000_0000 + sample;
    let exact = (base * f) / 0x1_0000_0000;
    assert(base / 2 <= exact) by (nonlinear_arith)
        requires
            f >= 0x8000_0000,
            exact == (base * f) / 0x1_0000_0000,
            base >= 0,
    ;
    assert(base > 0 ==> 2 * exact < 3 * base) by (nonlinear_arith)
        requires
            f < 0x1_8000_0000,
            exact == (base * f) / 0x1_0000_0000,
            base >= 0,
    ;
}

/// The backoff before jitter never exceeds the ceiling and never shrinks as
/// attempts go on.
pub proof fn lemma_backoff_capped_and_monotone(cfg: RetryConfig, a: nat, b: nat)
    requires
        a <= b,
    ensures
        cfg.spec_base_backoff(a) <= cfg.max_delay,
        cfg.spec_base_backoff(a) <= cfg.spec_base_backoff(b),
{
    lemma_two_pow_monotone(a, b);
    lemma_mul_le(cfg.base_delay as int, two_pow(a) as int, two_pow(b) as int);
}

/// `2^i <= 2^j` for `i <= j`.
pub proof fn lemma_two_pow_monotone(i: nat, j: nat)
    requires
        i <= j,
    ensures
        two_pow(i) <= two_pow(j),
    decreases j - i,
{
    if i < j {
        lemma_two_pow_monotone(i, (j - 1) as nat);
    }
}

proof fn lemma_mul_le(a: int, b: int, c: int)
    requires
        a >= 0,
        b <= c,
    ensures
        a * b <= a * c,
{
    assert(a * b <= a * c) by (nonlinear_arith)
        requires
            a >= 0,
            b <= c,
    ;
}

/// A uniformly random `u32` from the operating system's source
/// (`rand::rngs::OsRng`, `TryRngCore::try_next_u32`), or `None` when that
/// source fails. Nothing is promised of the value beyond its type.
#[verifier::external_body]
fn random_u32() -> Option<u32> {
    rand::TryRngCore::try_next_u32(&mut rand::rngs::OsRng).ok()
}

/// Whether some pattern of `pats`, lower-cased, occurs in `lowered`.
fn pattern_matches_any(lowered: &Vec<char>, pats: &Vec<String>) -> (b: bool)
    ensures
        b == matches_any(lowered@, strings_view(pats@)),
{
    let mut i: usize = 0;
    while i < pats.len()
        invariant
            i <= pats@.len(),
            forall|k: int|
                0 <= k < i ==> !seq_contains(lowered@, str_lowercase(#[trigger] pats@[k]@)),
        decreases pats@.len() - i,
    {
        let pat = chars_of(lowercase(pats[i].as_str()).as_str());
        if contains_chars(lowered, &pat) {
            assert(strings_view(pats@)[i as int] == pats@[i as int]@);
            return true;
        }
        i += 1;
    }
    assert forall|k: int| 0 <= k < strings_view(pats@).len() implies !seq_contains(
        lowered@,
        str_lowercase(#[trigger] strings_view(pats@)[k]),
    ) by {
        assert(strings_view(pats@)[k] == pats@[k]@);
    }
    false
}

impl RetryConfig {
    /// Set the maximum number of retries. (Builder.)
    pub fn with_max_retries(self, max_retries: u32) -> (c: Self)
        ensures
            c == (RetryConfig { max_retries, ..self }),
    {
        RetryConfig { max_retries, ..self }
    }
}

impl Default for RetryConfig {
    fn default() -> (c: Self)
        ensures
            c.is_default(),
    {
        RetryConfig {
            enabled: true,
            max_retries: 3,
            base_delay: 1000,
            max_delay: 30_000,
            jitter: true,
            retry_on: default_retry_on(),
            skip_on: default_skip_on(),
        }
    }
}

/// Per-tool circuit-breaker policy.
///
/// State machine (per tool): `CLOSED -> OPEN` once `failure_threshold`
/// failures accrue; `OPEN -> HALF_OPEN` after `reset_timeout` milliseconds;
/// `HALF_OPEN -> CLOSED` after `success_threshold` probe successes, or back to
/// `OPEN` on any probe failure. At most `half_open_max_calls` probes run
/// concurrently in `HALF_OPEN`.
#[derive(Debug, Clone, Copy)]
pub struct CircuitBreakerConfig {
    /// Whether the layer is active.
    pub enabled: bool,
    /// Failures in `CLOSED` before opening.
    pub failure_threshold: u32,
    /// Probe successes in `HALF_OPEN` before closing.
    pub success_threshold: u32,
    /// How long to stay `OPEN` before allowing a probe, in milliseconds.
    pub reset_timeout: u64,
    /// Max concurrent probes allowed in `HALF_OPEN`.
    pub half_open_max_calls: u32,
}

impl Default for CircuitBreakerConfig {
    fn default() -> (c: Self)
        ensures
            c.enabled,
            c.failure_threshold == 5,
            c.success_threshold == 2,
            c.reset_timeout == 60_000,
            c.half_open_max_calls == 1,
    {
        CircuitBreakerConfig {
            enabled: true,
            failure_threshold: 5,
            success_threshold: 2,
            reset_timeout: 60_000,
            half_open_max_calls: 1,
        }
    }
}

/// Sliding-window rate-limit policy: a global window and per-tool windows.
#[derive(Debug, Clone)]
pub struct RateLimitConfig {
    /// Whether the layer is active (off by default).
    pub enabled: bool,
    /// Global limit: at most this many calls per `global_period` (`None` = no global limit).
    pub global_limit: Option<u32>,
    /// Global window length, in milliseconds.
    pub global_period: u64,
    /// Per-tool `(tool, (limit, period in milliseconds))` windows.
    pub per_tool: Vec<(String, (u32, u64))>,
}

impl Default for RateLimitConfig {
    fn default() -> (c: Self)
        ensures
            !c.enabled,
            c.global_limit == Some(100u32),
            c.global_period == 60_000,
            c.per_tool@.len() == 0,
    {
        RateLimitConfig {
            enabled: false,
            global_limit: Some(100),
            global_period: 60_000,
            per_tool: Vec::new(),
        }
    }
}

/// Opt-in result caching policy.
#[derive(Debug, Clone)]
pub struct CacheConfig {
    /// Tools whose successful results are cached.
    pub cacheable_tools: Vec<String>,
    /// Time-to-live for entries, in milliseconds (`None` = never expire).
    pub default_ttl: Option<u64>,
    /// Per-tool time-to-live overrides, in milliseconds.
    pub per_tool_ttl: Vec<(String, u64)>,
}

impl RateLimitConfig {
    /// Enable the layer and add a limit of `limit` calls per `period`
    /// milliseconds for `tool`. (Builder.)
    pub fn with_tool_limit(self, tool: &str, limit: u32, period: u64) -> (c: Self)
        ensures
            c.enabled,
            c.global_limit == self.global_limit,
            c.global_period == self.global_period,
            c.per_tool@.len() == self.per_tool@.len() + 1,
            c.per_tool@.take(self.per_tool@.len() as int) == self.per_tool@,
            c.per_tool@.last().0@ == tool@,
            c.per_tool@.last().1 == (limit, period),
    {
        let mut c = RateLimitConfig { enabled: true, ..self };
        c.per_tool.push((tool.to_owned(), (limit, period)));
        assert(c.per_tool@.take(self.per_tool@.len() as int) =~= self.per_tool@);
        c
    }
}

impl Default for CacheConfig {
    fn default() -> (c: Self)
        ensures
            c.cacheable_tools@.len() == 0,
            c.default_ttl is None,
            c.per_tool_ttl@.len() == 0,
    {
        CacheConfig { cacheable_tools: Vec::new(), default_ttl: None, per_tool_ttl: Vec::new() }
    }
}

impl CacheConfig {
    /// Whether `tool` is opted into caching.
    pub open spec fn spec_is_cacheable(&self, tool: Seq<char>) -> bool {
        exists|i: int| 0 <= i < self.cacheable_tools@.len() && #[trigger] self.cacheable_tools@[i]@ == tool
    }

    /// The time-to-live for `tool`: its last per-tool override, else the default.
    pub open spec fn spec_ttl_for(&self, tool: Seq<char>) -> Option<u64> {
        ttl_lookup(self.per_tool_ttl@, tool, self.default_ttl)
    }

    /// Whether `tool` is opted into caching.
    pub fn is_cacheable(&self, tool: &str) -> (b: bool)
        ensures
            b == self.spec_is_cacheable(tool@),
    {
        let mut i: usize = 0;
        while i < self.cacheable_tools.len()
            invariant
                i <= self.cacheable_tools@.len(),
                forall|k: int| 0 <= k < i ==> #[trigger] self.cacheable_tools@[k]@ != tool@,
            decreases self.cacheable_tools@.len() - i,
        {
            if str_eq(self.cacheable_tools[i].as_str(), tool) {
                return true;
            }
            i += 1;
        }
        false
    }

    /// The time-to-live that applies to `tool`, in milliseconds: its last
    /// per-tool entry, else the default.
    pub fn ttl_for(&self, tool: &str) -> (t: Option<u64>)
        ensures
            t == self.spec_ttl_for(tool@),
    {
        let mut i: usize = self.per_tool_ttl.len();
        assert(self.per_tool_ttl@.take(i as int) =~= self.per_tool_ttl@);
        while i > 0
            invariant
                i <= self.per_tool_ttl@.len(),
                ttl_lookup(self.per_tool_ttl@, tool@, self.default_ttl) == ttl_lookup(
                    self.per_tool_ttl@.take(i as int),
                    tool@,
                    self.default_ttl,
                ),
            decreases i,
        {
            let ghost pre = self.per_tool_ttl@.take(i as int);
            assert(pre.drop_last() =~= self.per_tool_ttl@.take(i - 1));
            assert(pre.last() == self.per_tool_ttl@[i - 1]);
            if str_eq(self.per_tool_ttl[i - 1].0.as_str(), tool) {
                return Some(self.per_tool_ttl[i - 1].1);
            }
            i -= 1;
        }
        self.default_ttl
    }

    /// Opt `tool` into caching. (Builder.)
    pub fn cacheable_tool(self, tool: &str) -> (c: Self)
        ensures
            c.cacheable_tools@ == self.cacheable_tools@.push(c.cacheable_tools@.last()),
            c.cacheable_tools@.last()@ == tool@,
            c.default_ttl == self.default_ttl,
            c.per_tool_ttl@ == self.per_tool_ttl@,
    {
        let mut c = self;
        c.cacheable_tools.push(tool.to_owned());
        c
    }

    /// Set a time-to-live for `tool`, in milliseconds. (Builder.)
    pub fn with_tool_ttl(self, tool: &str, ttl: u64) -> (c: Self)
        ensures
            c.per_tool_ttl@.len() == self.per_tool_ttl@.len() + 1,
            c.per_tool_ttl@.take(self.per_tool_ttl@.len() as int) == self.per_tool_ttl@,
            c.per_tool_ttl@.last().0@ == tool@,
            c.per_tool_ttl@.last().1 == ttl,
            c.cacheable_tools@ == self.cacheable_tools@,
            c.default_ttl == self.default_ttl,
    {
        let mut c = self;
        c.per_tool_ttl.push((tool.to_owned(), ttl));
        assert(c.per_tool_ttl@.take(self.per_tool_ttl@.len() as int) =~= self.per_tool_ttl@);
        c
    }

    /// Set the default time-to-live, in milliseconds. (Builder.)
    pub fn with_default_ttl(self, ttl: u64) -> (c: Self)
        ensures
            c.default_ttl == Some(ttl),
            c.cacheable_tools@ == self.cacheable_tools@,
            c.per_tool_ttl@ == self.per_tool_ttl@,
    {
        let mut c = self;
        c.default_ttl = Some(ttl);
        c
    }
}

/// The value of the last `(tool, ttl)` pair for `tool`, else `default` (a
/// later entry for the same tool replaces an earlier one).
pub open spec fn ttl_lookup(pairs: Seq<(String, u64)>, tool: Seq<char>, default: Option<u64>) -> Option<u64>
    decreases pairs.len(),
{
    if pairs.len() == 0 {
        default
    } else if pairs.last().0@ == tool {
        Some(pairs.last().1)
    } else {
        ttl_lookup(pairs.drop_last(), tool, default)
    }
}

/// String equality by characters.
pub fn str_eq(a: &str, b: &str) -> (r: bool)
    ensures
        r == (a@ == b@),
{
    let x = chars_of(a);
    let y = chars_of(b);
    if x.len() != y.len() {
        return false;
    }
    let mut i: usize = 0;
    while i < x.len()
        invariant
            x@ == a@,
            y@ == b@,
            x@.len() == y@.len(),
            i <= x@.len(),
            forall|k: int| 0 <= k < i ==> x@[k] == y@[k],
        decreases x@.len() - i,
    {
        if x[i] != y[i] {
            return false;
        }
        i += 1;
    }
    assert(x@ =~= y@);
    true
}

/// A per-tool time-to-live applies whatever the default: when the last entry
/// for `tool` is at index `j`, the lookup gives that entry's time-to-live
/// (also when the default is `None`); when no entry names `tool`, it gives
/// the default.
pub proof fn lemma_ttl_lookup_last_entry(pairs: Seq<(String, u64)>, tool: Seq<char>, default: Option<u64>)
    ensures
        forall|j: int|
            0 <= j < pairs.len() && (#[trigger] pairs[j]).0@ == tool && (forall|k: int| j < k < pairs.len() ==> pairs[k].0@ != tool)
                ==> ttl_lookup(pairs, tool, default) == Some(pairs[j].1),
        (forall|k: int| 0 <= k < pairs.len() ==> pairs[k].0@ != tool) ==> ttl_lookup(pairs, tool, default) == default,
    decreases pairs.len(),
{
    if pairs.len() > 0 {
        let init = pairs.drop_last();
        lemma_ttl_lookup_last_entry(init, tool, default);
        let n = pairs.len() - 1;
        assert forall|j: int|
            0 <= j < pairs.len() && (#[trigger] pairs[j]).0@ == tool && (forall|k: int| j < k < pairs.len() ==> pairs[k].0@ != tool)
            implies ttl_lookup(pairs, tool, default) == Some(pairs[j].1) by {
            if j < n {
                assert(pairs[n].0@ != tool);
                assert(init[j] == pairs[j]);
                assert forall|k: int| j < k < init.len() implies init[k].0@ != tool by {
                    assert(init[k] == pairs[k]);
                }
            }
        }
        if forall|k: int| 0 <= k < pairs.len() ==> pairs[k].0@ != tool {
            assert(pairs[n].0@ != tool);
            assert forall|k: int| 0 <= k < init.len() implies init[k].0@ != tool by {
                assert(init[k] == pairs[k]);
            }
        }
    }
}

/// A per-tool time-to-live applies whatever the default: `ttl_for` gives the
/// last entry for the tool, or the default when the tool has none.
pub proof fn lemma_per_tool_ttl_applies(c: CacheConfig, tool: Seq<char>)
    ensures
        forall|j: int|
            0 <= j < c.per_tool_ttl@.len() && (#[trigger] c.per_tool_ttl@[j]).0@ == tool && (forall|k: int|
                j < k < c.per_tool_ttl@.len() ==> c.per_tool_ttl@[k].0@ != tool) ==> c.spec_ttl_for(tool) == Some(
                c.per_tool_ttl@[j].1,
            ),
        (forall|k: int| 0 <= k < c.per_tool_ttl@.len() ==> c.per_tool_ttl@[k].0@ != tool) ==> c.spec_ttl_for(tool)
            == c.default_ttl,
{
    lemma_ttl_lookup_last_entry(c.per_tool_ttl@, tool, c.default_ttl);
}

} // verus!

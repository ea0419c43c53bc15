//! Per-tool circuit breaker.
//!
//! Sits above retry (a fully-retried failure counts as one failure) and
//! short-circuits calls to a tool that keeps failing, giving it time to
//! recover. Time is a monotonic clock reading in milliseconds supplied by the
//! caller.

use vstd::prelude::*;

use crate::config::CircuitBreakerConfig;
use crate::outcome::ToolOutcome;
use crate::strmap::StrMap;
use crate::text::str_concat;

verus! {

/// Error-message prefix used when a call is short-circuited by an open breaker.
pub const CIRCUIT_OPEN_PREFIX: &'static str = "circuit breaker open";

/// Circuit-breaker state for a single tool.
#[derive(Debug, Clone, Copy, PartialEq, Eq, Structural)]
pub enum CircuitState {
    /// Calls pass through.
    Closed,
    /// Calls are short-circuited.
    Open,
    /// A limited number of probe calls are allowed.
    HalfOpen,
}

/// A point-in-time view of one tool's breaker, for diagnostics.
#[derive(Debug, Clone, Copy)]
pub struct CircuitSnapshot {
    /// Current state.
    pub state: CircuitState,
    /// Failures counted since the breaker last closed (or since the last success while closed).
    pub failure_count: u32,
    /// Probe successes counted in the current `HALF_OPEN` phase.
    pub success_count: u32,
    /// Milliseconds until an `OPEN` breaker will admit a probe (`None` unless `OPEN`).
    pub time_until_half_open: Option<u64>,
}

/// `a - b`, or 0 when `b > a`.
pub open spec fn sat_sub(a: u64, b: u64) -> u64 {
    if a >= b {
        (a - b) as u64
    } else {
        0
    }
}

/// `a + 1`, or `a` at `u32::MAX`.
pub open spec fn sat_inc(a: u32) -> u32 {
    if a < u32::MAX {
        (a + 1) as u32
    } else {
        a
    }
}

/// The breaker state of one tool.
#[derive(Debug, Clone, Copy)]
pub struct Breaker {
    /// Current state.
    pub state: CircuitState,
    /// Failures counted (saturating at `u32::MAX`).
    pub failure_count: u32,
    /// Probe successes in the current `HALF_OPEN` phase.
    pub success_count: u32,
    /// Probes currently admitted in `HALF_OPEN`.
    pub half_open_calls: u32,
    /// When the breaker last opened (clock reading in milliseconds).
    pub opened_at: Option<u64>,
}

impl Breaker {
    /// A fresh, closed breaker.
    pub open spec fn initial() -> Breaker {
        Breaker {
            state: CircuitState::Closed,
            failure_count: 0,
            success_count: 0,
            half_open_calls: 0,
            opened_at: None,
        }
    }

    /// Reachable breakers: an open breaker records when it opened, a closed one
    /// has no probe slots taken, and a half-open one has fewer probe successes
    /// than it needs to close and at most `half_open_max_calls` probes admitted.
    pub open spec fn wf(self, cfg: CircuitBreakerConfig) -> bool {
        &&& (self.state == CircuitState::Open ==> self.opened_at is Some)
        &&& (self.state == CircuitState::Closed ==> self.half_open_calls == 0 && self.success_count == 0)
        &&& (self.state == CircuitState::HalfOpen ==> {
            &&& self.success_count < cfg.success_threshold || self.success_count == 0
            &&& self.half_open_calls <= cfg.half_open_max_calls
        })
    }

    /// Whether an open breaker's reset window has elapsed at `now`.
    pub open spec fn reset_elapsed(self, cfg: CircuitBreakerConfig, now: u64) -> bool {
        self.opened_at matches Some(t) && sat_sub(now, t) >= cfg.reset_timeout
    }

    /// Admission at `now`: the breaker afterwards and whether the call may proceed.
    /// `CLOSED` admits; `HALF_OPEN` admits while a probe slot is free; `OPEN`
    /// admits once the reset window has elapsed and there is a probe slot at
    /// all, turning `HALF_OPEN` with this call holding the first probe slot.
    pub open spec fn acquire_step(self, cfg: CircuitBreakerConfig, now: u64) -> (Breaker, bool) {
        match self.state {
            CircuitState::Closed => (self, true),
            CircuitState::HalfOpen => if self.half_open_calls < cfg.half_open_max_calls {
                (Breaker { half_open_calls: (self.half_open_calls + 1) as u32, ..self }, true)
            } else {
                (self, false)
            },
            CircuitState::Open => if self.reset_elapsed(cfg, now) && 0 < cfg.half_open_max_calls {
                (
                    Breaker {
                        state: CircuitState::HalfOpen,
                        half_open_calls: 1,
                        success_count: 0,
                        ..self
                    },
                    true,
                )
            } else {
                (self, false)
            },
        }
    }

    /// A call succeeded: in `HALF_OPEN` count the probe success and close once
    /// `success_threshold` is reached; otherwise clear the failure count.
    pub open spec fn success_step(self, cfg: CircuitBreakerConfig) -> Breaker {
        if self.state == CircuitState::HalfOpen {
            if self.success_count + 1 >= cfg.success_threshold {
                Breaker::initial()
            } else {
                Breaker { success_count: (self.success_count + 1) as u32, ..self }
            }
        } else {
            Breaker { failure_count: 0, ..self }
        }
    }

    /// A call failed at `now`: count it; a closed breaker opens once the count
    /// reaches `failure_threshold`, a half-open one reopens at once.
    pub open spec fn failure_step(self, cfg: CircuitBreakerConfig, now: u64) -> Breaker {
        let counted = Breaker { failure_count: sat_inc(self.failure_count), ..self };
        match self.state {
            CircuitState::Closed => if counted.failure_count >= cfg.failure_threshold {
                Breaker { state: CircuitState::Open, opened_at: Some(now), ..counted }
            } else {
                counted
            },
            CircuitState::HalfOpen => Breaker {
                state: CircuitState::Open,
                opened_at: Some(now),
                success_count: 0,
                half_open_calls: 0,
                ..counted
            },
            CircuitState::Open => counted,
        }
    }

    /// A call completed: give back its `HALF_OPEN` probe slot, if still half-open.
    pub open spec fn release_step(self) -> Breaker {
        if self.state == CircuitState::HalfOpen {
            Breaker { half_open_calls: sat_sub(self.half_open_calls as u64, 1) as u32, ..self }
        } else {
            self
        }
    }

    /// The outcome of a completed call: success or failure, then the probe release.
    pub open spec fn complete_step(self, cfg: CircuitBreakerConfig, success: bool, now: u64) -> Breaker {
        let recorded = if success {
            self.success_step(cfg)
        } else {
            self.failure_step(cfg, now)
        };
        recorded.release_step()
    }

    /// The diagnostics view at `now`.
    pub open spec fn snapshot_at(self, cfg: CircuitBreakerConfig, now: u64) -> CircuitSnapshot {
        CircuitSnapshot {
            state: self.state,
            failure_count: self.failure_count,
            success_count: self.success_count,
            time_until_half_open: if self.state == CircuitState::Open {
                match self.opened_at {
                    Some(t) => Some(sat_sub(cfg.reset_timeout, sat_sub(now, t))),
                    None => None,
                }
            } else {
                None
            },
        }
    }

    /// A fresh, closed breaker.
    pub fn new() -> (b: Breaker)
        ensures
            b == Breaker::initial(),
    {
        Breaker {
            state: CircuitState::Closed,
            failure_count: 0,
            success_count: 0,
            half_open_calls: 0,
            opened_at: None,
        }
    }

    /// Try to admit a call at `now`. Returns whether the call is allowed through.
    pub fn try_acquire(&mut self, cfg: &CircuitBreakerConfig, now: u64) -> (allowed: bool)
        ensures
            (*final(self), allowed) == old(self).acquire_step(*cfg, now),
    {
        match self.state {
            CircuitState::Closed => true,
            CircuitState::HalfOpen => {
                if self.half_open_calls < cfg.half_open_max_calls {
                    self.half_open_calls = self.half_open_calls + 1;
                    true
                } else {
                    false
                }
            },
            CircuitState::Open => {
                let ready = match self.opened_at {
                    Some(t) => now.saturating_sub(t) >= cfg.reset_timeout,
                    None => false,
                };
                if ready && 0 < cfg.half_open_max_calls {
                    self.state = CircuitState::HalfOpen;
                    self.half_open_calls = 1;
                    self.success_count = 0;
                    true
                } else {
                    false
                }
            },
        }
    }

    /// Record a successful call.
    pub fn record_success(&mut self, cfg: &CircuitBreakerConfig)
        requires
            old(self).wf(*cfg),
        ensures
            *final(self) == old(self).success_step(*cfg),
    {
        if self.state == CircuitState::HalfOpen {
            let next = self.success_count + 1;
            if next >= cfg.success_threshold {
                self.state = CircuitState::Closed;
                self.failure_count = 0;
                self.success_count = 0;
                self.half_open_calls = 0;
                self.opened_at = None;
            } else {
                self.success_count = next;
            }
        } else {
            self.failure_count = 0;
        }
    }

    /// Record a failed call at `now`.
    pub fn record_failure(&mut self, cfg: &CircuitBreakerConfig, now: u64)
        ensures
            *final(self) == old(self).failure_step(*cfg, now),
    {
        self.failure_count = self.failure_count.saturating_add(1);
        match self.state {
            CircuitState::Closed => {
                if self.failure_count >= cfg.failure_threshold {
                    self.state = CircuitState::Open;
                    self.opened_at = Some(now);
                }
            },
            CircuitState::HalfOpen => {
                self.success_count = 0;
                self.half_open_calls = 0;
                self.state = CircuitState::Open;
                self.opened_at = Some(now);
            },
            CircuitState::Open => {},
        }
    }

    /// Release a `HALF_OPEN` probe slot after a call completes (no-op once the
    /// breaker has left `HALF_OPEN`).
    pub fn release_probe(&mut self)
        ensures
            *final(self) == old(self).release_step(),
    {
        if self.state == CircuitState::HalfOpen {
            self.half_open_calls = self.half_open_calls.saturating_sub(1);
        }
    }

    /// The diagnostics view at `now`.
    pub fn snapshot(&self, cfg: &CircuitBreakerConfig, now: u64) -> (s: CircuitSnapshot)
        ensures
            s == self.snapshot_at(*cfg, now),
    {
        let time_until_half_open = if self.state == CircuitState::Open {
            match self.opened_at {
                Some(t) => Some(cfg.reset_timeout.saturating_sub(now.saturating_sub(t))),
                None => None,
            }
        } else {
            None
        };
        CircuitSnapshot {
            state: self.state,
            failure_count: self.failure_count,
            success_count: self.success_count,
            time_until_half_open,
        }
    }
}

/// Per-tool circuit-breaker policy state: the configuration and one breaker
/// per tool that has been called.
pub struct CircuitBreakerLayer {
    config: CircuitBreakerConfig,
    breakers: StrMap<Breaker>,
}

impl CircuitBreakerLayer {
    /// The configuration.
    pub closed spec fn cfg(&self) -> CircuitBreakerConfig {
        self.config
    }

    /// The breaker of each tool seen so far.
    pub closed spec fn breakers(&self) -> Map<Seq<char>, Breaker> {
        self.breakers@
    }

    /// Internal consistency: the table is well formed and every breaker reachable.
    pub closed spec fn wf(&self) -> bool {
        &&& self.breakers.wf()
        &&& forall|t: Seq<char>| #[trigger] self.breakers@.contains_key(t) ==> self.breakers@[t].wf(self.config)
    }

    /// The breaker of `tool`, or a fresh one if it has none yet.
    pub open spec fn breaker_of(&self, tool: Seq<char>) -> Breaker {
        if self.breakers().contains_key(tool) {
            self.breakers()[tool]
        } else {
            Breaker::initial()
        }
    }

    /// A layer with the given policy and no breakers yet.
    pub fn new(config: CircuitBreakerConfig) -> (l: Self)
        ensures
            l.wf(),
            l.cfg() == config,
            l.breakers() == Map::<Seq<char>, Breaker>::empty(),
    {
        CircuitBreakerLayer { config, breakers: StrMap::new() }
    }

    /// The policy.
    pub fn config(&self) -> (c: &CircuitBreakerConfig)
        ensures
            *c == self.cfg(),
    {
        &self.config
    }

    /// Decide whether a call to `tool` at `now` goes through. A disabled layer
    /// admits everything and keeps no state; otherwise the tool's breaker
    /// (created closed on first use) takes an admission step.
    pub fn acquire(&mut self, tool: &str, now: u64) -> (allowed: bool)
        requires
            old(self).wf(),
        ensures
            final(self).wf(),
            final(self).cfg() == old(self).cfg(),
            !old(self).cfg().enabled ==> allowed && final(self).breakers() == old(self).breakers(),
            old(self).cfg().enabled ==> ({
                let (b, a) = old(self).breaker_of(tool@).acquire_step(old(self).cfg(), now);
                &&& allowed == a
                &&& final(self).breakers() == old(self).breakers().insert(tool@, b)
            }),
            forall|t: Seq<char>| t != tool@ ==> #[trigger] final(self).breaker_of(t) == old(self).breaker_of(t),
    {
        if !self.config.enabled {
            return true;
        }
        let mut b = match self.breakers.get(tool) {
            Some(b) => *b,
            None => Breaker::new(),
        };
        proof {
            lemma_steps_keep_wf(b, self.config, now, true);
        }
        let allowed = b.try_acquire(&self.config, now);
        self.breakers.insert(tool.to_owned(), b);
        allowed
    }

    /// Record that an admitted call to `tool` finished at `now`, successfully or not.
    pub fn complete(&mut self, tool: &str, success: bool, now: u64)
        requires
            old(self).wf(),
        ensures
            final(self).wf(),
            final(self).cfg() == old(self).cfg(),
            !old(self).cfg().enabled ==> final(self).breakers() == old(self).breakers(),
            old(self).cfg().enabled ==> final(self).breakers() == old(self).breakers().insert(
                tool@,
                old(self).breaker_of(tool@).complete_step(old(self).cfg(), success, now),
            ),
            forall|t: Seq<char>| t != tool@ ==> #[trigger] final(self).breaker_of(t) == old(self).breaker_of(t),
    {
        if !self.config.enabled {
            return;
        }
        let mut b = match self.breakers.get(tool) {
            Some(b) => *b,
            None => Breaker::new(),
        };
        proof {
            lemma_steps_keep_wf(b, self.config, now, success);
        }
        if success {
            b.record_success(&self.config);
        } else {
            b.record_failure(&self.config, now);
        }
        b.release_probe();
        self.breakers.insert(tool.to_owned(), b);
    }

    /// Diagnostics snapshot of the breaker for `tool` at `now`, if one exists yet.
    pub fn snapshot(&self, tool: &str, now: u64) -> (s: Option<CircuitSnapshot>)
        requires
            self.wf(),
        ensures
            match s {
                Some(snap) => self.breakers().contains_key(tool@) && snap == self.breakers()[tool@].snapshot_at(
                    self.cfg(),
                    now,
                ),
                None => !self.breakers().contains_key(tool@),
            },
    {
        match self.breakers.get(tool) {
            Some(b) => Some(b.snapshot(&self.config, now)),
            None => None,
        }
    }
}

/// The outcome of a call short-circuited by an open breaker:
/// `"circuit breaker open for '<tool>'"`.
pub fn blocked_outcome(tool: &str) -> (out: ToolOutcome)
    ensures
        out.tool@ == tool@,
        !out.success,
        out.result is None,
        out.error matches Some(e) && e@ == CIRCUIT_OPEN_PREFIX@ + " for '"@ + tool@ + "'"@,
        out.attempts == 1,
        !out.from_cache,
{
    let msg = str_concat(str_concat(str_concat(CIRCUIT_OPEN_PREFIX, " for '").as_str(), tool).as_str(), "'");
    ToolOutcome::err(tool, msg.as_str())
}

/// `n` failed calls, each admitted and then completed, at time `now`.
pub open spec fn fail_times(b: Breaker, cfg: CircuitBreakerConfig, n: nat, now: u64) -> Breaker
    decreases n,
{
    if n == 0 {
        b
    } else {
        fail_times(b, cfg, (n - 1) as nat, now).acquire_step(cfg, now).0.complete_step(cfg, false, now)
    }
}

/// `n` successful probes: each admitted then completed.
pub open spec fn succeed_times(b: Breaker, cfg: CircuitBreakerConfig, n: nat, now: u64) -> Breaker
    decreases n,
{
    if n == 0 {
        b
    } else {
        succeed_times(b, cfg, (n - 1) as nat, now).acquire_step(cfg, now).0.complete_step(cfg, true, now)
    }
}

/// A closed breaker opens after exactly `failure_threshold` consecutive failed
/// calls: it stays closed, counting, for fewer, and is open at the threshold.
pub proof fn lemma_failures_open(cfg: CircuitBreakerConfig, n: nat, now: u64)
    requires
        cfg.failure_threshold >= 1,
        n <= cfg.failure_threshold,
    ensures
        n < cfg.failure_threshold ==> fail_times(Breaker::initial(), cfg, n, now).state == CircuitState::Closed
            && fail_times(Breaker::initial(), cfg, n, now).failure_count == n,
        n == cfg.failure_threshold ==> fail_times(Breaker::initial(), cfg, n, now).state == CircuitState::Open
            && fail_times(Breaker::initial(), cfg, n, now).opened_at == Some(now),
    decreases n,
{
    if n > 0 {
        lemma_failures_open(cfg, (n - 1) as nat, now);
    }
}

/// An open breaker admits nothing, and does not change, until its reset
/// window has elapsed.
pub proof fn lemma_open_blocks(b: Breaker, cfg: CircuitBreakerConfig, now: u64)
    requires
        b.state == CircuitState::Open,
        b.opened_at matches Some(t) && sat_sub(now, t) < cfg.reset_timeout,
    ensures
        b.acquire_step(cfg, now) == (b, false),
{
}

/// Once the reset window has elapsed an open breaker admits one probe and
/// turns half-open; with one probe slot, a second call is refused while the
/// probe runs.
pub proof fn lemma_reset_admits_probe(b: Breaker, cfg: CircuitBreakerConfig, now: u64)
    requires
        b.state == CircuitState::Open,
        b.reset_elapsed(cfg, now),
        cfg.half_open_max_calls == 1,
    ensures
        b.acquire_step(cfg, now).1,
        b.acquire_step(cfg, now).0.state == CircuitState::HalfOpen,
        b.acquire_step(cfg, now).0.acquire_step(cfg, now).1 == false,
{
}

/// A failed probe sends a half-open breaker straight back to open, with the
/// reset window restarted at the failure.
pub proof fn lemma_probe_failure_reopens(b: Breaker, cfg: CircuitBreakerConfig, now: u64)
    requires
        b.state == CircuitState::HalfOpen,
    ensures
        b.complete_step(cfg, false, now).state == CircuitState::Open,
        b.complete_step(cfg, false, now).opened_at == Some(now),
        b.complete_step(cfg, false, now).half_open_calls == 0,
{
}

/// A half-open breaker that has just admitted its first probe closes after
/// exactly `success_threshold` successful probes (one probe slot), and stays
/// half-open, counting, before that.
pub proof fn lemma_probes_close(b: Breaker, cfg: CircuitBreakerConfig, n: nat, now: u64)
    requires
        b.state == CircuitState::HalfOpen,
        b.success_count == 0,
        b.half_open_calls == 0,
        cfg.half_open_max_calls == 1,
        cfg.success_threshold >= 1,
        n <= cfg.success_threshold,
    ensures
        n < cfg.success_threshold ==> succeed_times(b, cfg, n, now).state == CircuitState::HalfOpen
            && succeed_times(b, cfg, n, now).success_count == n && succeed_times(b, cfg, n, now).half_open_calls == 0,
        n == cfg.success_threshold ==> succeed_times(b, cfg, n, now) == Breaker::initial(),
    decreases n,
{
    if n > 0 {
        lemma_probes_close(b, cfg, (n - 1) as nat, now);
    }
}

/// Every reachable breaker is well formed: each step keeps `wf`. In particular
/// the probes admitted in `HALF_OPEN` and not yet completed never exceed
/// `half_open_max_calls` (so with a limit of 0 no probe is ever admitted).
pub proof fn lemma_steps_keep_wf(b: Breaker, cfg: CircuitBreakerConfig, now: u64, success: bool)
    requires
        b.wf(cfg),
    ensures
        b.acquire_step(cfg, now).0.wf(cfg),
        b.complete_step(cfg, success, now).wf(cfg),
        Breaker::initial().wf(cfg),
{
}

/// Half-open admission, for every probe limit `m`: a half-open breaker with
/// `k < m` probes outstanding admits the next call and then has `k + 1`
/// outstanding, still half-open and otherwise unchanged; with `k >= m` it
/// refuses and stays as it is.
pub proof fn lemma_half_open_admits_up_to_limit(b: Breaker, cfg: CircuitBreakerConfig, now: u64)
    requires
        b.state == CircuitState::HalfOpen,
    ensures
        b.half_open_calls < cfg.half_open_max_calls ==> b.acquire_step(cfg, now).1 && b.acquire_step(cfg, now).0 == (
        Breaker { half_open_calls: (b.half_open_calls + 1) as u32, ..b }),
        b.half_open_calls >= cfg.half_open_max_calls ==> !b.acquire_step(cfg, now).1 && b.acquire_step(cfg, now).0
            == b,
{
}

/// Starting from a breaker just turned half-open (one probe out), exactly
/// `half_open_max_calls` calls are admitted while no probe completes: calls
/// `1 .. m` beyond the first are admitted, and the next is refused.
pub proof fn lemma_half_open_admits_m_probes(b: Breaker, cfg: CircuitBreakerConfig, now: u64, k: nat)
    requires
        b.state == CircuitState::HalfOpen,
        b.half_open_calls == 1,
        1 <= k < cfg.half_open_max_calls,
    ensures
        admit_times(b, cfg, (k - 1) as nat, now).half_open_calls == k,
        admit_times(b, cfg, (k - 1) as nat, now).state == CircuitState::HalfOpen,
        admit_times(b, cfg, (k - 1) as nat, now).acquire_step(cfg, now).1,
    decreases k,
{
    if k > 1 {
        lemma_half_open_admits_m_probes(b, cfg, now, (k - 1) as nat);
    }
}

/// The breaker after `n` further admissions at `now`.
pub open spec fn admit_times(b: Breaker, cfg: CircuitBreakerConfig, n: nat, now: u64) -> Breaker
    decreases n,
{
    if n == 0 {
        b
    } else {
        admit_times(b, cfg, (n - 1) as nat, now).acquire_step(cfg, now).0
    }
}

} // verus!

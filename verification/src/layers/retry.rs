//! Retry with exponential backoff.
//!
//! The layer decides, after each attempt, whether to return the outcome or to
//! wait and try again. The number of attempts made is recorded in
//! `ToolOutcome::attempts`. When a timeout is supplied it is an overall
//! deadline: a retry happens only when its backoff ends before the deadline,
//! so no retry starts once the budget is spent.

use vstd::prelude::*;

use crate::config::{jitter_spec, RetryConfig};
use crate::layers::circuit_breaker::sat_sub;
use crate::layers::rate_limit::sat_add;
use crate::outcome::ToolOutcome;

verus! {

/// What to do after an attempt.
#[derive(Debug, Clone, Copy, PartialEq, Eq, Structural)]
pub enum RetryStep {
    /// Return the outcome to the caller.
    Return,
    /// Wait this many milliseconds, then make the next attempt.
    RetryAfter(u64),
}

/// Whether the failure `outcome` of 0-based attempt `attempt` earns another
/// attempt: it failed, retries remain, and its error is retryable.
pub open spec fn retry_wanted(cfg: RetryConfig, attempt: u32, outcome: ToolOutcome) -> bool {
    &&& !outcome.success
    &&& attempt < cfg.max_retries
    &&& outcome.error matches Some(e) && cfg.retryable(e@)
}

/// `d` is a backoff the policy may choose for `attempt`: the capped
/// exponential delay, scaled by a jitter factor when jitter is on (unscaled
/// when no random sample can be had).
pub open spec fn is_backoff(cfg: RetryConfig, attempt: u32, d: u64) -> bool {
    let base = cfg.spec_base_backoff(attempt as nat);
    if cfg.jitter {
        d == base || exists|sample: u32| d == #[trigger] jitter_spec(base as nat, sample)
    } else {
        d == base
    }
}

/// Wraps an inner invoker, retrying retryable failures with backoff.
pub struct RetryLayer<I> {
    inner: I,
    config: RetryConfig,
}

impl<I> RetryLayer<I> {
    /// The wrapped invoker.
    pub closed spec fn spec_inner(&self) -> I {
        self.inner
    }

    /// The policy.
    pub closed spec fn cfg(&self) -> RetryConfig {
        self.config
    }

    /// Wrap `inner` with the given retry policy.
    pub fn new(inner: I, config: RetryConfig) -> (l: Self)
        ensures
            l.spec_inner() == inner,
            l.cfg() == config,
    {
        RetryLayer { inner, config }
    }

    /// The wrapped invoker.
    pub fn inner(&self) -> (i: &I)
        ensures
            *i == self.spec_inner(),
    {
        &self.inner
    }

    /// The policy.
    pub fn config(&self) -> (c: &RetryConfig)
        ensures
            *c == self.cfg(),
    {
        &self.config
    }

    /// Whether calls pass straight through (the layer is disabled).
    pub fn passes_through(&self) -> (b: bool)
        ensures
            b == !self.cfg().enabled,
    {
        !self.config.enabled
    }

    /// Stamp `outcome` as the result of 0-based attempt `attempt`.
    pub fn stamp(&self, outcome: ToolOutcome, attempt: u32) -> (out: ToolOutcome)
        requires
            attempt < u32::MAX,
        ensures
            out == (ToolOutcome { attempts: (attempt + 1) as u32, ..outcome }),
    {
        let mut out = outcome;
        out.attempts = attempt + 1;
        out
    }

    /// Decide what follows 0-based attempt `attempt`, which produced `outcome`,
    /// with `remaining` milliseconds of deadline budget left (`None` = no
    /// deadline). Return unless a retry is wanted; otherwise draw a backoff and
    /// wait it out, unless that wait would reach the deadline: no retry starts
    /// once the budget is spent, so then return the last failure.
    pub fn next_step(&self, attempt: u32, outcome: &ToolOutcome, remaining: Option<u64>) -> (s: RetryStep)
        ensures
            !retry_wanted(self.cfg(), attempt, *outcome) ==> s == RetryStep::Return,
            retry_wanted(self.cfg(), attempt, *outcome) ==> exists|d: u64|
                #![trigger is_backoff(self.cfg(), attempt, d)]
                is_backoff(self.cfg(), attempt, d) && s == match remaining {
                    Some(r) => if d < r {
                        RetryStep::RetryAfter(d)
                    } else {
                        RetryStep::Return
                    },
                    None => RetryStep::RetryAfter(d),
                },
    {
        if outcome.success {
            return RetryStep::Return;
        }
        let has_budget = attempt < self.config.max_retries;
        let error = match &outcome.error {
            Some(e) => Some(e.as_str()),
            None => None,
        };
        if !has_budget || !self.config.should_retry(error) {
            return RetryStep::Return;
        }
        let d = self.config.backoff(attempt);
        assert(is_backoff(self.cfg(), attempt, d));
        match remaining {
            Some(r) => {
                if d < r {
                    RetryStep::RetryAfter(d)
                } else {
                    RetryStep::Return
                }
            },
            None => RetryStep::RetryAfter(d),
        }
    }
}

/// The deadline for a call starting at `now` with an optional `timeout`
/// (both in milliseconds; saturating).
pub fn deadline_for(now: u64, timeout: Option<u64>) -> (d: Option<u64>)
    ensures
        d == match timeout {
            Some(t) => Some(sat_add(now, t)),
            None => None,
        },
{
    match timeout {
        Some(t) => Some(now.saturating_add(t)),
        None => None,
    }
}

/// Budget left at `now` before `deadline` (0 once it has passed).
pub fn remaining_budget(deadline: Option<u64>, now: u64) -> (r: Option<u64>)
    ensures
        r == match deadline {
            Some(d) => Some(sat_sub(d, now)),
            None => None,
        },
{
    match deadline {
        Some(d) => Some(d.saturating_sub(now)),
        None => None,
    }
}

/// The retry budget bounds the attempts: from attempt `max_retries` on no
/// retry is ever wanted, so at most `max_retries + 1` attempts are made.
pub proof fn lemma_attempts_bounded(cfg: RetryConfig, attempt: u32, outcome: ToolOutcome)
    requires
        attempt >= cfg.max_retries,
    ensures
        !retry_wanted(cfg, attempt, outcome),
{
}

/// A success is never retried, and neither is a failure whose error matches
/// the skip list, whatever the retry list says.
pub proof fn lemma_skip_wins(cfg: RetryConfig, attempt: u32, outcome: ToolOutcome)
    requires
        outcome.success || (outcome.error matches Some(e) && crate::config::matches_any(
            crate::text::str_lowercase(e@),
            crate::config::strings_view(cfg.skip_on@),
        )),
    ensures
        !retry_wanted(cfg, attempt, outcome),
{
}

/// A run of attempts: attempt `i` produced `outcomes[i]`, and every attempt
/// but the last was followed by another (which [`RetryLayer::next_step`]
/// allows only where a retry is wanted).
pub open spec fn retried_run(cfg: RetryConfig, outcomes: Seq<ToolOutcome>) -> bool {
    &&& outcomes.len() >= 1
    &&& forall|i: int| 0 <= i < outcomes.len() - 1 ==> retry_wanted(cfg, i as u32, #[trigger] outcomes[i])
}

/// Over a whole run: at most `max_retries + 1` attempts are made; every
/// attempt but the last failed with a retryable error (one that no skip
/// pattern matches); and no attempt follows a success, which can only be the
/// last outcome.
pub proof fn lemma_retry_run(cfg: RetryConfig, outcomes: Seq<ToolOutcome>)
    requires
        retried_run(cfg, outcomes),
    ensures
        outcomes.len() <= cfg.max_retries + 1,
        forall|i: int|
            0 <= i < outcomes.len() - 1 ==> !(#[trigger] outcomes[i]).success && (outcomes[i].error matches Some(e)
                && cfg.retryable(e@)),
        forall|j: int| 0 <= j < outcomes.len() && (#[trigger] outcomes[j]).success ==> j == outcomes.len() - 1,
{
    if outcomes.len() > cfg.max_retries + 1 {
        let i = cfg.max_retries as int;
        assert(retry_wanted(cfg, i as u32, outcomes[i]));
    }
    assert forall|j: int| 0 <= j < outcomes.len() && (#[trigger] outcomes[j]).success implies j == outcomes.len() - 1 by {
        if j < outcomes.len() - 1 {
            assert(retry_wanted(cfg, j as u32, outcomes[j]));
        }
    }
}

} // verus!

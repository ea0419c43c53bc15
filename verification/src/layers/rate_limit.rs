//! Sliding-window rate limiting: a global window and independent per-tool
//! windows. When a window is full the caller waits until the oldest request in
//! it ages out, then asks again; it is never rejected. The global window is
//! taken before the per-tool one. Time is a monotonic clock reading in
//! milliseconds supplied by the caller.

use vstd::prelude::*;
use std::collections::VecDeque;

use crate::config::RateLimitConfig;
use crate::layers::circuit_breaker::sat_sub;
use crate::strmap::StrMap;

verus! {

/// `a + b`, or `u64::MAX` on overflow.
pub open spec fn sat_add(a: u64, b: u64) -> u64 {
    if a + b <= u64::MAX {
        (a + b) as u64
    } else {
        u64::MAX
    }
}

/// The answer to a request for a slot.
#[derive(Debug, Clone, Copy, PartialEq, Eq, Structural)]
pub enum Acquire {
    /// The slot is taken; proceed.
    Granted,
    /// The window is full; wait this many milliseconds, then ask again.
    Wait(u64),
}

/// `stamps` with its leading entries that are at least `period` old at `now` removed.
pub open spec fn prune(stamps: Seq<u64>, now: u64, period: u64) -> Seq<u64>
    decreases stamps.len(),
{
    if stamps.len() > 0 && sat_sub(now, stamps[0]) >= period {
        prune(stamps.drop_first(), now, period)
    } else {
        stamps
    }
}

/// The clock reading a request at `now` is taken at: `now`, or the newest
/// stamp if `now` is earlier (the window's clock never runs backwards).
pub open spec fn clock_at(stamps: Seq<u64>, now: u64) -> u64 {
    if stamps.len() > 0 && now < stamps.last() {
        stamps.last()
    } else {
        now
    }
}

/// One request against a window holding `stamps`, at clock reading `now`
/// (taken as [`clock_at`]): the stamps afterwards and the answer.
pub open spec fn acquire_step(stamps: Seq<u64>, limit: u32, period: u64, now: u64) -> (Seq<u64>, Acquire) {
    step_at(stamps, limit, period, clock_at(stamps, now))
}

/// One request at time `now`: aged-out stamps leave the window; if fewer
/// than `limit` remain the request is granted and stamped, otherwise it must
/// wait until the oldest remaining stamp ages out.
pub open spec fn step_at(stamps: Seq<u64>, limit: u32, period: u64, now: u64) -> (Seq<u64>, Acquire) {
    let live = prune(stamps, now, period);
    if live.len() < limit {
        (live.push(now), Acquire::Granted)
    } else {
        (live, Acquire::Wait(sat_sub(sat_add(live[0], period), now)))
    }
}

/// Stamps in nondecreasing order.
pub open spec fn nondecreasing(stamps: Seq<u64>) -> bool {
    forall|i: int, j: int| 0 <= i <= j < stamps.len() ==> stamps[i] <= stamps[j]
}

/// Stamps in nondecreasing order, none after `now`.
pub open spec fn ordered_until(stamps: Seq<u64>, now: u64) -> bool {
    &&& forall|i: int, j: int| 0 <= i <= j < stamps.len() ==> stamps[i] <= stamps[j]
    &&& forall|i: int| 0 <= i < stamps.len() ==> stamps[i] <= now
}

/// Pruning drops a prefix, and what it keeps starts with a stamp younger than
/// the period.
pub proof fn lemma_prune(stamps: Seq<u64>, now: u64, period: u64)
    ensures
        exists|k: int| 0 <= k <= stamps.len() && prune(stamps, now, period) == stamps.subrange(k, stamps.len() as int),
        prune(stamps, now, period).len() > 0 ==> sat_sub(now, prune(stamps, now, period)[0]) < period,
    decreases stamps.len(),
{
    if stamps.len() > 0 && sat_sub(now, stamps[0]) >= period {
        lemma_prune(stamps.drop_first(), now, period);
        let k = choose|k: int|
            0 <= k <= stamps.drop_first().len() && prune(stamps.drop_first(), now, period)
                == stamps.drop_first().subrange(k, stamps.drop_first().len() as int);
        assert(stamps.drop_first().subrange(k, stamps.drop_first().len() as int) =~= stamps.subrange(
            k + 1,
            stamps.len() as int,
        ));
    } else {
        assert(stamps.subrange(0, stamps.len() as int) =~= stamps);
    }
}

/// A full window answers with a positive wait that ends exactly when its
/// oldest stamp ages out (barring clock overflow), measured from the clock
/// reading the request is taken at.
pub proof fn lemma_wait_until_oldest_ages_out(stamps: Seq<u64>, limit: u32, period: u64, now: u64)
    requires
        limit > 0,
        acquire_step(stamps, limit, period, now).1 is Wait,
        prune(stamps, clock_at(stamps, now), period)[0] + period <= u64::MAX,
    ensures
        ({
            let t = clock_at(stamps, now);
            let w = acquire_step(stamps, limit, period, now).1->Wait_0;
            &&& w > 0
            &&& t + w == prune(stamps, t, period)[0] + period
        }),
{
    lemma_prune(stamps, clock_at(stamps, now), period);
}

/// The sliding-window guarantee, for every reachable window (at most `limit`
/// stamps, in order), whatever the clock reading: with `t` the reading the
/// request is taken at, the window afterwards holds at most `limit` stamps,
/// in order and none after `t`; the stamps it dropped are exactly the leading
/// ones at least `period` old at `t`, so every acquisition younger than
/// `period` is still counted. Hence no more than `limit` requests are granted
/// within any `period`. With a positive period every stamp kept is younger
/// than it.
pub proof fn lemma_window_bounds_recent_grants(stamps: Seq<u64>, limit: u32, period: u64, now: u64)
    requires
        limit > 0,
        stamps.len() <= limit,
        nondecreasing(stamps),
    ensures
        ({
            let t = clock_at(stamps, now);
            let after = acquire_step(stamps, limit, period, now).0;
            &&& after.len() <= limit
            &&& ordered_until(after, t)
            &&& exists|k: int|
                0 <= k <= stamps.len() && after.take(stamps.len() - k) == stamps.subrange(k, stamps.len() as int)
                    && forall|i: int| 0 <= i < k ==> sat_sub(t, #[trigger] stamps[i]) >= period
            &&& period > 0 ==> forall|i: int| 0 <= i < after.len() ==> t - after[i] < period
        }),
{
    let t = clock_at(stamps, now);
    assert forall|i: int| 0 <= i < stamps.len() implies stamps[i] <= t by {
        assert(stamps[i] <= stamps[stamps.len() - 1]);
    }
    lemma_step_bounds(stamps, limit, period, t);
}

/// [`lemma_window_bounds_recent_grants`] at a clock reading no earlier than
/// any stamp.
proof fn lemma_step_bounds(stamps: Seq<u64>, limit: u32, period: u64, now: u64)
    requires
        limit > 0,
        stamps.len() <= limit,
        ordered_until(stamps, now),
    ensures
        ({
            let after = step_at(stamps, limit, period, now).0;
            &&& after.len() <= limit
            &&& ordered_until(after, now)
            &&& exists|k: int|
                0 <= k <= stamps.len() && after.take(stamps.len() - k) == stamps.subrange(k, stamps.len() as int)
                    && forall|i: int| 0 <= i < k ==> sat_sub(now, #[trigger] stamps[i]) >= period
            &&& period > 0 ==> forall|i: int| 0 <= i < after.len() ==> now - after[i] < period
        }),
{
    lemma_prune_drops_old(stamps, now, period);
    lemma_prune(stamps, now, period);
    let live = prune(stamps, now, period);
    let k = stamps.len() - live.len();
    assert(live == stamps.subrange(k, stamps.len() as int));
    assert forall|i: int| 0 <= i < live.len() implies sat_sub(now, live[i]) < period by {
        assert(live[i] == stamps[k + i]);
        assert(live[0] == stamps[k]);
        assert(stamps[k] <= stamps[k + i]);
    }
    let after = step_at(stamps, limit, period, now).0;
    if live.len() < limit {
        assert(after == live.push(now));
        assert(after.take(stamps.len() - k) =~= live);
        assert forall|i: int, j: int| 0 <= i <= j < after.len() implies after[i] <= after[j] by {
            if j < live.len() {
                assert(after[i] == stamps[k + i]);
                assert(after[j] == stamps[k + j]);
            } else {
                if i < live.len() {
                    assert(after[i] == stamps[k + i]);
                }
            }
        }
        assert forall|i: int| 0 <= i < after.len() implies after[i] <= now by {
            if i < live.len() {
                assert(after[i] == stamps[k + i]);
            }
        }
    } else {
        assert(after.take(stamps.len() - k) =~= live);
        assert forall|i: int, j: int| 0 <= i <= j < after.len() implies after[i] <= after[j] by {
            assert(after[i] == stamps[k + i]);
            assert(after[j] == stamps[k + j]);
        }
        assert forall|i: int| 0 <= i < after.len() implies after[i] <= now by {
            assert(after[i] == stamps[k + i]);
        }
    }
}

/// What pruning drops is a prefix of stamps each at least `period` old.
proof fn lemma_prune_drops_old(stamps: Seq<u64>, now: u64, period: u64)
    ensures
        prune(stamps, now, period).len() <= stamps.len(),
        prune(stamps, now, period) == stamps.subrange(
            stamps.len() - prune(stamps, now, period).len(),
            stamps.len() as int,
        ),
        forall|i: int|
            0 <= i < stamps.len() - prune(stamps, now, period).len() ==> sat_sub(now, #[trigger] stamps[i]) >= period,
    decreases stamps.len(),
{
    if stamps.len() > 0 && sat_sub(now, stamps[0]) >= period {
        let rest = stamps.drop_first();
        lemma_prune_drops_old(rest, now, period);
        let p = prune(rest, now, period);
        assert(rest.subrange(rest.len() - p.len(), rest.len() as int) =~= stamps.subrange(
            stamps.len() - p.len(),
            stamps.len() as int,
        ));
        assert forall|i: int| 0 <= i < stamps.len() - p.len() implies sat_sub(now, #[trigger] stamps[i]) >= period by {
            if i > 0 {
                assert(stamps[i] == rest[i - 1]);
            }
        }
    } else {
        assert(stamps.subrange(0, stamps.len() as int) =~= stamps);
    }
}

/// A sliding window: at most `limit` acquisitions per `period` milliseconds.
#[derive(Debug)]
pub struct Window {
    limit: u32,
    period: u64,
    stamps: VecDeque<u64>,
}

impl Window {
    /// The most acquisitions the window holds.
    pub closed spec fn spec_limit(&self) -> u32 {
        self.limit
    }

    /// The window length in milliseconds.
    pub closed spec fn spec_period(&self) -> u64 {
        self.period
    }

    /// The clock readings of the acquisitions currently in the window, oldest first.
    pub closed spec fn stamps(&self) -> Seq<u64> {
        self.stamps@
    }

    /// A window never holds more than its limit, and its stamps are in order.
    pub open spec fn wf(&self) -> bool {
        &&& self.stamps().len() <= self.spec_limit()
        &&& nondecreasing(self.stamps())
    }

    /// An empty window.
    pub fn new(limit: u32, period: u64) -> (w: Self)
        ensures
            w.wf(),
            w.spec_limit() == limit,
            w.spec_period() == period,
            w.stamps() == Seq::<u64>::empty(),
    {
        Window { limit, period, stamps: VecDeque::new() }
    }

    /// Ask for a slot at `now`. A window with a limit of 0 can never grant
    /// one and must not be asked.
    pub fn try_acquire(&mut self, now: u64) -> (a: Acquire)
        requires
            old(self).wf(),
            old(self).spec_limit() > 0,
        ensures
            final(self).wf(),
            final(self).spec_limit() == old(self).spec_limit(),
            final(self).spec_period() == old(self).spec_period(),
            (final(self).stamps(), a) == acquire_step(
                old(self).stamps(),
                old(self).spec_limit(),
                old(self).spec_period(),
                now,
            ),
    {
        let ghost s0 = self.stamps@;
        let len0 = self.stamps.len();
        let t = if len0 > 0 && now < self.stamps[len0 - 1] {
            self.stamps[len0 - 1]
        } else {
            now
        };
        assert(t == clock_at(s0, now));
        while self.stamps.len() > 0 && t.saturating_sub(self.stamps[0]) >= self.period
            invariant
                self.limit == old(self).limit,
                self.period == old(self).period,
                prune(self.stamps@, t, self.period) == prune(old(self).stamps@, t, old(self).period),
                self.stamps@.len() <= self.limit,
                nondecreasing(self.stamps@),
                self.stamps@.len() > 0 ==> self.stamps@.last() <= t,
            decreases self.stamps@.len(),
        {
            let ghost before = self.stamps@;
            self.stamps.pop_front();
            assert(self.stamps@ =~= before.drop_first());
        }
        let len = self.stamps.len();
        if len < self.limit as usize {
            let ghost before = self.stamps@;
            self.stamps.push_back(t);
            assert(self.stamps@ =~= before.push(t));
            assert forall|i: int, j: int| 0 <= i <= j < self.stamps@.len() implies self.stamps@[i] <= self.stamps@[j] by {
                if j == before.len() && i < before.len() {
                    assert(before[i] <= before[before.len() - 1]);
                }
            }
            Acquire::Granted
        } else {
            let oldest = self.stamps[0];
            Acquire::Wait(oldest.saturating_add(self.period).saturating_sub(t))
        }
    }
}

/// Rate-limit policy state: the global window and the per-tool windows.
pub struct RateLimitLayer {
    enabled: bool,
    global: Option<Window>,
    per_tool: StrMap<Window>,
}

/// The `(limit, period)` of the last entry for tool `t` in `per_tool`, if any
/// (a later entry for the same tool replaces an earlier one).
pub open spec fn last_tool_limit(per_tool: Seq<(String, (u32, u64))>, t: Seq<char>) -> Option<(u32, u64)>
    decreases per_tool.len(),
{
    if per_tool.len() == 0 {
        None
    } else if per_tool.last().0@ == t {
        Some(per_tool.last().1)
    } else {
        last_tool_limit(per_tool.drop_last(), t)
    }
}

impl RateLimitLayer {
    /// Whether the layer throttles at all.
    pub closed spec fn spec_enabled(&self) -> bool {
        self.enabled
    }

    /// The global window, if any.
    pub closed spec fn global_window(&self) -> Option<Window> {
        self.global
    }

    /// The window of each limited tool.
    pub closed spec fn tool_windows(&self) -> Map<Seq<char>, Window> {
        self.per_tool@
    }

    /// Internal consistency: every window is well formed.
    pub closed spec fn wf(&self) -> bool {
        &&& self.per_tool.wf()
        &&& (self.global matches Some(w) ==> w.wf())
        &&& forall|t: Seq<char>| #[trigger] self.per_tool@.contains_key(t) ==> self.per_tool@[t].wf()
    }

    /// Build the windows the policy describes, all empty: a global window of
    /// `global_limit` per `global_period` if there is one, and for each tool
    /// of `per_tool` a window of its last entry's limit and period.
    pub fn new(config: RateLimitConfig) -> (l: Self)
        ensures
            l.wf(),
            l.spec_enabled() == config.enabled,
            config.global_limit is None ==> l.global_window() is None,
            config.global_limit matches Some(lim) ==> l.global_window() matches Some(w) && w.spec_limit()
                == lim && w.spec_period() == config.global_period && w.stamps().len() == 0,
            forall|t: Seq<char>|
                #[trigger] l.tool_windows().contains_key(t) <==> last_tool_limit(config.per_tool@, t) is Some,
            forall|t: Seq<char>|
                #[trigger] l.tool_windows().contains_key(t) ==> l.tool_windows()[t].stamps().len() == 0
                    && (l.tool_windows()[t].spec_limit(), l.tool_windows()[t].spec_period()) == last_tool_limit(
                    config.per_tool@,
                    t,
                )->0,
    {
        let global = match config.global_limit {
            Some(limit) => Some(Window::new(limit, config.global_period)),
            None => None,
        };
        let mut per_tool: StrMap<Window> = StrMap::new();
        let mut i: usize = 0;
        while i < config.per_tool.len()
            invariant
                i <= config.per_tool@.len(),
                per_tool.wf(),
                forall|t: Seq<char>|
                    #[trigger] per_tool@.contains_key(t) <==> last_tool_limit(config.per_tool@.take(i as int), t) is Some,
                forall|t: Seq<char>|
                    #[trigger] per_tool@.contains_key(t) ==> per_tool@[t].wf() && per_tool@[t].stamps().len() == 0
                        && (per_tool@[t].spec_limit(), per_tool@[t].spec_period()) == last_tool_limit(
                        config.per_tool@.take(i as int),
                        t,
                    )->0,
            decreases config.per_tool@.len() - i,
        {
            let (limit, period) = config.per_tool[i].1;
            let name = config.per_tool[i].0.clone();
            per_tool.insert(name, Window::new(limit, period));
            proof {
                let pre = config.per_tool@.take(i as int);
                let post = config.per_tool@.take(i + 1);
                assert(post.drop_last() =~= pre);
                assert(post.last() == config.per_tool@[i as int]);
            }
            i += 1;
        }
        assert(config.per_tool@.take(config.per_tool@.len() as int) =~= config.per_tool@);
        RateLimitLayer { enabled: config.enabled, global, per_tool }
    }

    /// The global window's limit, if there is a global window.
    pub fn global_limit(&self) -> (l: Option<u32>)
        ensures
            l == match self.global_window() {
                Some(w) => Some(w.spec_limit()),
                None => None,
            },
    {
        match &self.global {
            Some(w) => Some(w.limit),
            None => None,
        }
    }

    /// The limit of `tool`'s own window, if it has one.
    pub fn tool_limit(&self, tool: &str) -> (l: Option<u32>)
        requires
            self.wf(),
        ensures
            l == if self.tool_windows().contains_key(tool@) {
                Some(self.tool_windows()[tool@].spec_limit())
            } else {
                None::<u32>
            },
    {
        match self.per_tool.get(tool) {
            Some(w) => Some(w.limit),
            None => None,
        }
    }

    /// Ask the global window for a slot at `now`. A disabled layer, or one
    /// without a global limit, grants at once and keeps no state. A global
    /// limit of 0 can never grant a slot, so an enabled layer with one must
    /// not be asked.
    pub fn acquire_global(&mut self, now: u64) -> (a: Acquire)
        requires
            old(self).wf(),
            old(self).spec_enabled() && old(self).global_window() is Some ==> old(self).global_window()->0.spec_limit() > 0,
        ensures
            final(self).wf(),
            final(self).spec_enabled() == old(self).spec_enabled(),
            final(self).tool_windows() == old(self).tool_windows(),
            !old(self).spec_enabled() || old(self).global_window() is None ==> a == Acquire::Granted
                && final(self).global_window() == old(self).global_window(),
            old(self).spec_enabled() && old(self).global_window() is Some ==> ({
                let w = old(self).global_window()->0;
                let (stamps, answer) = acquire_step(w.stamps(), w.spec_limit(), w.spec_period(), now);
                &&& a == answer
                &&& final(self).global_window() matches Some(nw) && nw.stamps() == stamps
                    && nw.spec_limit() == w.spec_limit() && nw.spec_period() == w.spec_period()
            }),
    {
        if !self.enabled {
            return Acquire::Granted;
        }
        match &mut self.global {
            Some(w) => w.try_acquire(now),
            None => Acquire::Granted,
        }
    }

    /// Ask `tool`'s window for a slot at `now`. A disabled layer, or a tool
    /// without its own limit, grants at once and keeps no state.
    pub fn acquire_tool(&mut self, tool: &str, now: u64) -> (a: Acquire)
        requires
            old(self).wf(),
            old(self).spec_enabled() && old(self).tool_windows().contains_key(tool@) ==> old(self).tool_windows()[tool@].spec_limit() > 0,
        ensures
            final(self).wf(),
            final(self).spec_enabled() == old(self).spec_enabled(),
            final(self).global_window() == old(self).global_window(),
            final(self).tool_windows().dom() == old(self).tool_windows().dom(),
            forall|t: Seq<char>| t != tool@ && #[trigger] old(self).tool_windows().contains_key(t)
                ==> final(self).tool_windows()[t] == old(self).tool_windows()[t],
            !old(self).spec_enabled() || !old(self).tool_windows().contains_key(tool@) ==> a
                == Acquire::Granted && final(self).tool_windows() == old(self).tool_windows(),
            old(self).spec_enabled() && old(self).tool_windows().contains_key(tool@) ==> ({
                let w = old(self).tool_windows()[tool@];
                let nw = final(self).tool_windows()[tool@];
                let (stamps, answer) = acquire_step(w.stamps(), w.spec_limit(), w.spec_period(), now);
                &&& a == answer
                &&& nw.stamps() == stamps
                &&& nw.spec_limit() == w.spec_limit()
                &&& nw.spec_period() == w.spec_period()
            }),
    {
        if !self.enabled {
            return Acquire::Granted;
        }
        match self.per_tool.remove(tool) {
            Some(mut w) => {
                let a = w.try_acquire(now);
                self.per_tool.insert(tool.to_owned(), w);
                proof {
                    assert(self.per_tool@.dom() =~= old(self).per_tool@.dom());
                }
                a
            },
            None => {
                assert(self.per_tool@ =~= old(self).per_tool@);
                Acquire::Granted
            },
        }
    }
}

} // verus!

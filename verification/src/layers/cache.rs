//! Result caching (outermost policy).
//!
//! A hit short-circuits every inner layer. Caching is opt-in per tool and only
//! successful results are stored; errors are never cached. Entries are keyed
//! by tool and by the canonical text of the arguments. Time is a monotonic
//! clock reading in milliseconds supplied by the caller.

use vstd::prelude::*;

use crate::config::CacheConfig;
use crate::json::clone_value;
use crate::layers::rate_limit::sat_add;
use crate::outcome::ToolOutcome;
use crate::strmap::StrMap;

verus! {

/// The text `serde_json::to_string` writes for `args`: a function of the
/// value alone. `serde_json`'s default object map is key-sorted, so JSON-equal
/// arguments, whatever the order their keys were inserted in, are the same
/// value and have the same text.
pub uninterp spec fn args_text(args: serde_json::Value) -> Seq<char>;

/// Canonical text of the arguments, used as the per-tool cache sub-key
/// (`serde_json::to_string`, which cannot fail for a JSON value; the empty
/// string stands in should it ever fail). The text is named [`args_text`].
#[verifier::external_body]
pub fn args_key(args: &serde_json::Value) -> (k: String)
    ensures
        k@ == args_text(*args),
{
    serde_json::to_string(args).unwrap_or_default()
}

/// Calls of a tool with JSON-equal arguments (equal values, whatever order
/// their keys were given in) share one cache entry, and calls whose argument
/// texts differ use different entries.
pub proof fn lemma_equal_args_share_entry(l: CacheLayer, tool: Seq<char>, a: serde_json::Value, b: serde_json::Value)
    ensures
        a == b ==> l.entry(tool, args_text(a)) == l.entry(tool, args_text(b)),
{
}

/// A cached successful result and when it expires.
#[derive(Debug)]
pub struct CacheEntry {
    /// The cached result payload.
    pub value: serde_json::Value,
    /// Expiry (clock reading in milliseconds); `None` never expires.
    pub expires_at: Option<u64>,
}

/// An entry is live at `now` unless its expiry has been reached.
pub open spec fn is_live(e: CacheEntry, now: u64) -> bool {
    match e.expires_at {
        Some(t) => now < t,
        None => true,
    }
}

/// The number of live entries among those with the listed keys.
pub open spec fn live_count(keys: Seq<Seq<char>>, m: Map<Seq<char>, CacheEntry>, now: u64) -> nat
    decreases keys.len(),
{
    if keys.len() == 0 {
        0
    } else {
        live_count(keys.drop_last(), m, now) + if is_live(m[keys.last()], now) {
            1nat
        } else {
            0nat
        }
    }
}

/// The number of live entries across the listed tools.
pub open spec fn live_count_all(tools: Seq<Seq<char>>, m: Map<Seq<char>, StrMap<CacheEntry>>, now: u64) -> nat
    decreases tools.len(),
{
    if tools.len() == 0 {
        0
    } else {
        let inner = m[tools.last()];
        live_count_all(tools.drop_last(), m, now) + live_count(inner.key_order(), inner@, now)
    }
}

/// No listed key has a live entry exactly when their live count is zero.
proof fn lemma_live_count_zero(keys: Seq<Seq<char>>, m: Map<Seq<char>, CacheEntry>, now: u64)
    ensures
        live_count(keys, m, now) == 0 <==> forall|i: int| 0 <= i < keys.len() ==> !is_live(#[trigger] m[keys[i]], now),
    decreases keys.len(),
{
    if keys.len() > 0 {
        let init = keys.drop_last();
        lemma_live_count_zero(init, m, now);
        assert forall|i: int| 0 <= i < init.len() implies #[trigger] m[init[i]] == m[keys[i]] by {}
        if live_count(keys, m, now) == 0 {
            assert forall|i: int| 0 <= i < keys.len() implies !is_live(#[trigger] m[keys[i]], now) by {
                if i < init.len() {
                    assert(m[init[i]] == m[keys[i]]);
                }
            }
        } else if forall|i: int| 0 <= i < keys.len() ==> !is_live(#[trigger] m[keys[i]], now) {
            assert(!is_live(m[keys[keys.len() - 1]], now));
            assert forall|i: int| 0 <= i < init.len() implies !is_live(#[trigger] m[init[i]], now) by {
                assert(m[init[i]] == m[keys[i]]);
            }
        }
    }
}

/// No listed tool has a live entry exactly when their live count is zero.
proof fn lemma_live_count_all_zero(tools: Seq<Seq<char>>, m: Map<Seq<char>, StrMap<CacheEntry>>, now: u64)
    ensures
        live_count_all(tools, m, now) == 0 <==> forall|i: int|
            0 <= i < tools.len() ==> live_count(#[trigger] m[tools[i]].key_order(), m[tools[i]]@, now) == 0,
    decreases tools.len(),
{
    if tools.len() > 0 {
        let init = tools.drop_last();
        lemma_live_count_all_zero(init, m, now);
        if live_count_all(tools, m, now) == 0 {
            assert forall|i: int| 0 <= i < tools.len() implies live_count(#[trigger] m[tools[i]].key_order(), m[tools[i]]@, now) == 0 by {
                if i < init.len() {
                    assert(init[i] == tools[i]);
                }
            }
        } else if forall|i: int|
            0 <= i < tools.len() ==> live_count(#[trigger] m[tools[i]].key_order(), m[tools[i]]@, now) == 0 {
            let l = tools.len() - 1;
            assert(live_count(m[tools[l]].key_order(), m[tools[l]]@, now) == 0);
            assert forall|i: int| 0 <= i < init.len() implies live_count(#[trigger] m[init[i]].key_order(), m[init[i]]@, now) == 0 by {
                assert(init[i] == tools[i]);
                assert(live_count(m[tools[i]].key_order(), m[tools[i]]@, now) == 0);
            }
        }
    }
}

/// Read after write: an entry stored at `now` under time-to-live `ttl` is
/// live (so a lookup serves it) at every later reading before `now + ttl`,
/// and at none from then on; without a time-to-live it never expires.
pub proof fn lemma_stored_entry_lifetime(value: serde_json::Value, now: u64, ttl: Option<u64>, later: u64)
    requires
        ttl matches Some(t) ==> now + t <= u64::MAX,
    ensures
        ({
            let e = CacheEntry {
                value,
                expires_at: match ttl {
                    Some(t) => Some(sat_add(now, t)),
                    None => None,
                },
            };
            is_live(e, later) <==> (ttl is None || later < now + ttl->0)
        }),
{
}

/// Result-cache policy state.
pub struct CacheLayer {
    config: CacheConfig,
    store: StrMap<StrMap<CacheEntry>>,
}

impl CacheLayer {
    /// The policy.
    pub closed spec fn cfg(&self) -> CacheConfig {
        self.config
    }

    /// The per-tool entry tables.
    pub closed spec fn tables(&self) -> Map<Seq<char>, StrMap<CacheEntry>> {
        self.store@
    }

    /// The tools with an entry table, in the order they were first cached.
    pub closed spec fn table_order(&self) -> Seq<Seq<char>> {
        self.store.key_order()
    }

    /// The entry for `tool` and argument key `key`, if any.
    pub open spec fn entry(&self, tool: Seq<char>, key: Seq<char>) -> Option<CacheEntry> {
        if self.tables().contains_key(tool) && self.tables()[tool]@.contains_key(key) {
            Some(self.tables()[tool]@[key])
        } else {
            None
        }
    }

    /// Internal consistency: all tables are well formed.
    pub closed spec fn wf(&self) -> bool {
        &&& self.store.wf()
        &&& forall|t: Seq<char>| #[trigger] self.store@.contains_key(t) ==> self.store@[t].wf()
    }

    /// An empty cache with the given policy.
    pub fn new(config: CacheConfig) -> (l: Self)
        ensures
            l.wf(),
            l.cfg() == config,
            forall|t: Seq<char>, k: Seq<char>| l.entry(t, k) is None,
    {
        CacheLayer { config, store: StrMap::new() }
    }

    /// The policy.
    pub fn config(&self) -> (c: &CacheConfig)
        ensures
            *c == self.cfg(),
    {
        &self.config
    }

    /// Look `tool` up under argument key `key` at `now`. A tool that is not
    /// cacheable never hits. A live entry is served as a successful outcome
    /// marked `from_cache`; an expired one is evicted and misses.
    pub fn lookup(&mut self, tool: &str, key: &str, now: u64) -> (hit: Option<ToolOutcome>)
        requires
            old(self).wf(),
        ensures
            final(self).wf(),
            final(self).cfg() == old(self).cfg(),
            !old(self).cfg().spec_is_cacheable(tool@) ==> hit is None && final(self).tables() == old(self).tables(),
            old(self).cfg().spec_is_cacheable(tool@) ==> match old(self).entry(tool@, key@) {
                None => hit is None && forall|t: Seq<char>, k: Seq<char>|
                    #[trigger] final(self).entry(t, k) == old(self).entry(t, k),
                Some(e) => if is_live(e, now) {
                    &&& hit matches Some(out) && out.tool@ == tool@ && out.success && out.result == Some(e.value)
                        && out.error is None && out.attempts == 1 && out.from_cache
                    &&& forall|t: Seq<char>, k: Seq<char>| #[trigger] final(self).entry(t, k) == old(self).entry(t, k)
                } else {
                    &&& hit is None
                    &&& final(self).entry(tool@, key@) is None
                    &&& forall|t: Seq<char>, k: Seq<char>|
                        (t != tool@ || k != key@) ==> #[trigger] final(self).entry(t, k) == old(self).entry(t, k)
                },
            },
    {
        if !self.config.is_cacheable(tool) {
            return None;
        }
        let mut table = match self.store.remove(tool) {
            Some(table) => table,
            None => {
                assert(forall|t: Seq<char>, k: Seq<char>| #[trigger] self.entry(t, k) == old(self).entry(t, k));
                return None;
            },
        };
        let ghost old_table = table@;
        let found = match table.get(key) {
            None => 0u8,
            Some(e) => {
                let expired = match e.expires_at {
                    Some(t) => now >= t,
                    None => false,
                };
                if expired {
                    1u8
                } else {
                    2u8
                }
            },
        };
        if found == 1 {
            table.remove(key);
        }
        let hit = if found == 2 {
            let e = table.get(key).unwrap();
            let mut out = ToolOutcome::ok(tool, clone_value(&e.value));
            out.from_cache = true;
            Some(out)
        } else {
            None
        };
        self.store.insert(tool.to_owned(), table);
        proof {
            assert forall|t: Seq<char>, k: Seq<char>| (t != tool@) implies #[trigger] self.entry(t, k) == old(self).entry(t, k) by {
            }
            if found != 1 {
                assert(table@ == old_table);
                assert forall|t: Seq<char>, k: Seq<char>| #[trigger] self.entry(t, k) == old(self).entry(t, k) by {
                }
            }
        }
        hit
    }

    /// Store `outcome` for `tool` under argument key `key` at `now`, if the tool
    /// is cacheable and the outcome is a success with a result. The entry
    /// expires `ttl_for(tool)` milliseconds after `now` (saturating), or never.
    pub fn store(&mut self, tool: &str, key: &str, outcome: &ToolOutcome, now: u64)
        requires
            old(self).wf(),
        ensures
            final(self).wf(),
            final(self).cfg() == old(self).cfg(),
            !(old(self).cfg().spec_is_cacheable(tool@) && outcome.success && outcome.result is Some)
                ==> final(self).tables() == old(self).tables(),
            old(self).cfg().spec_is_cacheable(tool@) && outcome.success && outcome.result is Some ==> {
                &&& final(self).entry(tool@, key@) == Some(
                    CacheEntry {
                        value: outcome.result->0,
                        expires_at: match old(self).cfg().spec_ttl_for(tool@) {
                            Some(ttl) => Some(sat_add(now, ttl)),
                            None => None,
                        },
                    },
                )
                &&& forall|t: Seq<char>, k: Seq<char>|
                    (t != tool@ || k != key@) ==> #[trigger] final(self).entry(t, k) == old(self).entry(t, k)
            },
    {
        if !self.config.is_cacheable(tool) || !outcome.success {
            return;
        }
        let value = match &outcome.result {
            Some(v) => clone_value(v),
            None => return,
        };
        let expires_at = match self.config.ttl_for(tool) {
            Some(ttl) => Some(now.saturating_add(ttl)),
            None => None,
        };
        let mut table = match self.store.remove(tool) {
            Some(table) => table,
            None => StrMap::new(),
        };
        table.insert(key.to_owned(), CacheEntry { value, expires_at });
        self.store.insert(tool.to_owned(), table);
        proof {
            assert forall|t: Seq<char>, k: Seq<char>|
                (t != tool@ || k != key@) implies #[trigger] self.entry(t, k) == old(self).entry(t, k) by {
            }
        }
    }

    /// Look a call of `tool` with `args` up at `now`: [`CacheLayer::lookup`]
    /// under the arguments' canonical text [`args_text`], so JSON-equal
    /// arguments find the same entry.
    pub fn lookup_call(&mut self, tool: &str, args: &serde_json::Value, now: u64) -> (hit: Option<ToolOutcome>)
        requires
            old(self).wf(),
        ensures
            final(self).wf(),
            final(self).cfg() == old(self).cfg(),
            !old(self).cfg().spec_is_cacheable(tool@) ==> hit is None && final(self).tables() == old(self).tables(),
            old(self).cfg().spec_is_cacheable(tool@) ==> match old(self).entry(tool@, args_text(*args)) {
                None => hit is None && forall|t: Seq<char>, k: Seq<char>|
                    #[trigger] final(self).entry(t, k) == old(self).entry(t, k),
                Some(e) => if is_live(e, now) {
                    &&& hit matches Some(out) && out.tool@ == tool@ && out.success && out.result == Some(e.value)
                        && out.error is None && out.attempts == 1 && out.from_cache
                    &&& forall|t: Seq<char>, k: Seq<char>| #[trigger] final(self).entry(t, k) == old(self).entry(t, k)
                } else {
                    &&& hit is None
                    &&& final(self).entry(tool@, args_text(*args)) is None
                    &&& forall|t: Seq<char>, k: Seq<char>|
                        (t != tool@ || k != args_text(*args)) ==> #[trigger] final(self).entry(t, k) == old(self).entry(t, k)
                },
            },
    {
        if !self.config.is_cacheable(tool) {
            return None;
        }
        let key = args_key(args);
        self.lookup(tool, key.as_str(), now)
    }

    /// Store the outcome of a call of `tool` with `args` at `now`:
    /// [`CacheLayer::store`] under the arguments' canonical text [`args_text`].
    pub fn store_call(&mut self, tool: &str, args: &serde_json::Value, outcome: &ToolOutcome, now: u64)
        requires
            old(self).wf(),
        ensures
            final(self).wf(),
            final(self).cfg() == old(self).cfg(),
            !(old(self).cfg().spec_is_cacheable(tool@) && outcome.success && outcome.result is Some)
                ==> final(self).tables() == old(self).tables(),
            old(self).cfg().spec_is_cacheable(tool@) && outcome.success && outcome.result is Some ==> {
                &&& final(self).entry(tool@, args_text(*args)) == Some(
                    CacheEntry {
                        value: outcome.result->0,
                        expires_at: match old(self).cfg().spec_ttl_for(tool@) {
                            Some(ttl) => Some(sat_add(now, ttl)),
                            None => None,
                        },
                    },
                )
                &&& forall|t: Seq<char>, k: Seq<char>|
                    (t != tool@ || k != args_text(*args)) ==> #[trigger] final(self).entry(t, k) == old(self).entry(t, k)
            },
    {
        if !self.config.is_cacheable(tool) || !outcome.success {
            return;
        }
        let key = args_key(args);
        self.store(tool, key.as_str(), outcome, now)
    }

    /// Number of live (unexpired) entries at `now`, for diagnostics.
    pub fn len(&self, now: u64) -> (n: usize)
        requires
            self.wf(),
        ensures
            n == crate::config::min_int(live_count_all(self.table_order(), self.tables(), now) as int, usize::MAX as int),
    {
        let mut n: usize = 0;
        let mut i: usize = 0;
        proof {
            self.store.lemma_len();
        }
        let tools = self.store.len();
        while i < tools
            invariant
                self.wf(),
                tools == self.table_order().len(),
                i <= tools,
                n == crate::config::min_int(live_count_all(self.table_order().take(i as int), self.tables(), now) as int, usize::MAX as int),
            decreases tools - i,
        {
            assert(self.table_order().take(i + 1).drop_last() =~= self.table_order().take(i as int));
            let table = self.store.value_at(i);
            proof {
                table.lemma_len();
            }
            let entries = table.len();
            let mut c: usize = 0;
            let mut j: usize = 0;
            while j < entries
                invariant
                    table.wf(),
                    entries == table.key_order().len(),
                    j <= entries,
                    c == live_count(table.key_order().take(j as int), table@, now),
                    c <= j,
                decreases entries - j,
            {
                assert(table.key_order().take(j + 1).drop_last() =~= table.key_order().take(j as int));
                let e = table.value_at(j);
                let live = match e.expires_at {
                    Some(t) => now < t,
                    None => true,
                };
                if live {
                    c += 1;
                }
                j += 1;
            }
            assert(table.key_order().take(entries as int) =~= table.key_order());
            n = n.saturating_add(c);
            i += 1;
        }
        assert(self.table_order().take(tools as int) =~= self.table_order());
        n
    }

    /// Whether the cache holds no live entries at `now`: no tool and argument
    /// key has an entry that is live then.
    pub fn is_empty(&self, now: u64) -> (b: bool)
        requires
            self.wf(),
        ensures
            b <==> live_count_all(self.table_order(), self.tables(), now) == 0,
            b <==> self.no_live_entry(now),
    {
        let n = self.len(now);
        proof {
            self.lemma_no_live_entry(now);
        }
        n == 0
    }

    /// No entry is live at `now`.
    pub open spec fn no_live_entry(&self, now: u64) -> bool {
        forall|t: Seq<char>, k: Seq<char>| #[trigger] self.entry(t, k) matches Some(e) ==> !is_live(e, now)
    }

    /// The live count is zero exactly when no entry is live.
    proof fn lemma_no_live_entry(&self, now: u64)
        requires
            self.wf(),
        ensures
            live_count_all(self.table_order(), self.tables(), now) == 0 <==> self.no_live_entry(now),
    {
        let order = self.table_order();
        let m = self.tables();
        lemma_live_count_all_zero(order, m, now);
        self.store.lemma_key_order();
        if live_count_all(order, m, now) == 0 {
            assert forall|t: Seq<char>, k: Seq<char>| #[trigger] self.entry(t, k) is Some implies !is_live(
                self.entry(t, k)->0,
                now,
            ) by {
                assert(order.contains(t));
                let i = choose|i: int| 0 <= i < order.len() && order[i] == t;
                let tab = m[t];
                tab.lemma_key_order();
                lemma_live_count_zero(tab.key_order(), tab@, now);
                assert(tab.key_order().contains(k));
                let j = choose|j: int| 0 <= j < tab.key_order().len() && tab.key_order()[j] == k;
                assert(live_count(m[order[i]].key_order(), m[order[i]]@, now) == 0);
            }
        } else {
            let i = choose|i: int|
                0 <= i < order.len() && live_count(m[order[i]].key_order(), m[order[i]]@, now) != 0;
            let t = order[i];
            let tab = m[t];
            assert(order[i] == t);
            assert(order.contains(t));
            assert(self.store@.contains_key(t));
            tab.lemma_key_order();
            lemma_live_count_zero(tab.key_order(), tab@, now);
            let j = choose|j: int| 0 <= j < tab.key_order().len() && is_live(tab@[tab.key_order()[j]], now);
            let k = tab.key_order()[j];
            assert(tab.key_order().contains(k));
            assert(self.entry(t, k) == Some(tab@[k]));
        }
    }
}

} // verus!

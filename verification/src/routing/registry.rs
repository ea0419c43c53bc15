//! Tool-to-server registry with a first-wins collision policy.
//!
//! The first server to advertise a tool name owns default (unpinned) routing
//! for it. A later server advertising the same name is recorded as a provider
//! but does not take over routing: a bare tool name is not a trust boundary,
//! so a second server must not be able to hijack a name an earlier one owns.

use vstd::prelude::*;

use crate::config::{str_eq, strings_view};
use crate::strmap::StrMap;

verus! {

/// `tools` lists the non-empty name `t`.
pub open spec fn advertises(tools: Seq<String>, t: Seq<char>) -> bool {
    t.len() > 0 && exists|i: int| 0 <= i < tools.len() && #[trigger] tools[i]@ == t
}

/// `after` is `before` with `server` registered as advertising `tools`: a
/// name keeps its owner; a name seen for the first time is owned by
/// `server`; `server` joins the provider list of each advertised name once,
/// at the end; other names are untouched.
pub open spec fn registered(before: ToolRegistry, after: ToolRegistry, server: Seq<char>, tools: Seq<String>) -> bool {
    &&& forall|t: Seq<char>| #[trigger] after.owners().contains_key(t) <==> (before.owners().contains_key(t)
        || advertises(tools, t))
    &&& forall|t: Seq<char>| #[trigger] after.provider_lists().contains_key(t) <==> (before.provider_lists().contains_key(t)
        || advertises(tools, t))
    &&& forall|t: Seq<char>| #[trigger] before.owners().contains_key(t) ==> after.owners()[t] == before.owners()[t]
    &&& forall|t: Seq<char>|
        !before.owners().contains_key(t) && advertises(tools, t) ==> #[trigger] after.owners()[t] == server
    &&& forall|t: Seq<char>| #[trigger] after.provider_lists().contains_key(t) ==> after.provider_lists()[t] == (
        if !advertises(tools, t) {
            before.provider_lists()[t]
        } else if !before.provider_lists().contains_key(t) {
            seq![server]
        } else if before.provider_lists()[t].contains(server) {
            before.provider_lists()[t]
        } else {
            before.provider_lists()[t].push(server)
        })
}

/// First-wins: once a name has an owner, no later registration changes it;
/// the first server to advertise a name keeps it even when another server
/// advertises the same name afterwards.
pub proof fn lemma_first_wins(
    r0: ToolRegistry,
    r1: ToolRegistry,
    r2: ToolRegistry,
    s1: Seq<char>,
    tools1: Seq<String>,
    s2: Seq<char>,
    tools2: Seq<String>,
    t: Seq<char>,
)
    requires
        registered(r0, r1, s1, tools1),
        registered(r1, r2, s2, tools2),
        !r0.owners().contains_key(t),
        advertises(tools1, t),
    ensures
        r2.owners().contains_key(t),
        r2.owners()[t] == s1,
{
}

/// Registering the same server with the same names a second time changes
/// nothing: owners and provider lists stay as the first registration left them.
pub proof fn lemma_register_idempotent(
    r0: ToolRegistry,
    r1: ToolRegistry,
    r2: ToolRegistry,
    server: Seq<char>,
    tools: Seq<String>,
)
    requires
        r0.inv(),
        registered(r0, r1, server, tools),
        registered(r1, r2, server, tools),
    ensures
        r2.owners() == r1.owners(),
        r2.provider_lists() == r1.provider_lists(),
{
    assert forall|t: Seq<char>| #[trigger] r2.provider_lists().contains_key(t) implies r2.provider_lists()[t]
        == r1.provider_lists()[t] by {
        if advertises(tools, t) {
            if !r0.provider_lists().contains_key(t) {
                assert(r1.provider_lists()[t] == seq![server]);
                assert(r1.provider_lists()[t][0] == server);
            } else if !r0.provider_lists()[t].contains(server) {
                let l = r0.provider_lists()[t].push(server);
                assert(l[l.len() - 1] == server);
            }
        }
    }
    assert(r2.owners() =~= r1.owners());
    assert(r2.provider_lists() =~= r1.provider_lists());
}

/// Maps tool names to their owning server (first-wins) and records every
/// server that advertises each name, in registration order.
pub struct ToolRegistry {
    owners: StrMap<String>,
    providers: StrMap<Vec<String>>,
}

impl ToolRegistry {
    /// The owner of each registered tool name.
    pub closed spec fn owners(&self) -> Map<Seq<char>, Seq<char>> {
        Map::new(|t: Seq<char>| self.owners@.contains_key(t), |t: Seq<char>| self.owners@[t]@)
    }

    /// The servers advertising each registered tool name, in registration order.
    pub closed spec fn provider_lists(&self) -> Map<Seq<char>, Seq<Seq<char>>> {
        Map::new(
            |t: Seq<char>| self.providers@.contains_key(t),
            |t: Seq<char>| strings_view(self.providers@[t]@),
        )
    }

    /// The registry's invariant: the same names have an owner and providers;
    /// no name is empty; each provider list is duplicate-free and starts with
    /// the owner.
    pub open spec fn inv(&self) -> bool {
        &&& self.owners().dom() == self.provider_lists().dom()
        &&& forall|t: Seq<char>| #[trigger] self.owners().contains_key(t) ==> {
            &&& t.len() > 0
            &&& self.provider_lists()[t].len() > 0
            &&& self.provider_lists()[t].no_duplicates()
            &&& self.provider_lists()[t][0] == self.owners()[t]
        }
    }

    /// A well-formed registry keeps its invariant.
    pub proof fn lemma_wf_inv(&self)
        requires
            self.wf(),
        ensures
            self.inv(),
    {
    }

    /// Internal consistency of the tables, plus the invariant.
    pub closed spec fn wf(&self) -> bool {
        &&& self.owners.wf()
        &&& self.providers.wf()
        &&& self.inv()
    }

    /// An empty registry.
    pub fn new() -> (r: Self)
        ensures
            r.wf(),
            r.inv(),
            r.owners() == Map::<Seq<char>, Seq<char>>::empty(),
            r.provider_lists() == Map::<Seq<char>, Seq<Seq<char>>>::empty(),
    {
        let r = ToolRegistry { owners: StrMap::new(), providers: StrMap::new() };
        assert(r.owners() =~= Map::<Seq<char>, Seq<char>>::empty());
        assert(r.provider_lists() =~= Map::<Seq<char>, Seq<Seq<char>>>::empty());
        r
    }

    /// Register that `server` advertises `tools`, applying the first-wins
    /// policy. A name keeps its owner; a name seen for the first time is owned
    /// by `server`; `server` joins the provider list of each advertised name
    /// once, at the end. Empty names are ignored.
    pub fn register(&mut self, server: &str, tools: &[String])
        requires
            old(self).wf(),
        ensures
            final(self).wf(),
            final(self).inv(),
            registered(*old(self), *final(self), server@, tools@),
    {
        let mut i: usize = 0;
        while i < tools.len()
            invariant
                i <= tools@.len(),
                self.wf(),
                old(self).wf(),
                forall|t: Seq<char>| #[trigger] self.owners().contains_key(t) <==> (old(self).owners().contains_key(t)
                    || advertises(tools@.take(i as int), t)),
                forall|t: Seq<char>| #[trigger] old(self).owners().contains_key(t) ==> self.owners()[t] == old(self).owners()[t],
                forall|t: Seq<char>|
                    !old(self).owners().contains_key(t) && advertises(tools@.take(i as int), t) ==> #[trigger] self.owners()[t]
                        == server@,
                forall|t: Seq<char>| #[trigger] self.provider_lists().contains_key(t) ==> self.provider_lists()[t] == (
                    if !advertises(tools@.take(i as int), t) {
                        old(self).provider_lists()[t]
                    } else if !old(self).provider_lists().contains_key(t) {
                        seq![server@]
                    } else if old(self).provider_lists()[t].contains(server@) {
                        old(self).provider_lists()[t]
                    } else {
                        old(self).provider_lists()[t].push(server@)
                    }),
            decreases tools@.len() - i,
        {
            let ghost prev_owners = self.owners();
            let ghost prev_lists = self.provider_lists();
            let tool = &tools[i];
            proof {
                assert forall|t: Seq<char>| #[trigger] advertises(tools@.take(i + 1), t) == (advertises(tools@.take(i as int), t)
                    || (t == tool@ && t.len() > 0)) by {
                    if advertises(tools@.take(i + 1), t) {
                        let k = choose|k: int| 0 <= k < i + 1 && #[trigger] tools@.take(i + 1)[k]@ == t;
                        if k < i {
                            assert(tools@.take(i as int)[k] == tools@.take(i + 1)[k]);
                        }
                    }
                    if advertises(tools@.take(i as int), t) {
                        let k = choose|k: int| 0 <= k < i && #[trigger] tools@.take(i as int)[k]@ == t;
                        assert(tools@.take(i + 1)[k] == tools@.take(i as int)[k]);
                    }
                    if t == tool@ && t.len() > 0 {
                        assert(tools@.take(i + 1)[i as int]@ == t);
                    }
                }
            }
            if !tool.as_str().is_empty() {
                self.add_provider(tool.as_str(), server);
                proof {
                    let tt = tool@;
                    assert(prev_owners.contains_key(tt) == prev_lists.contains_key(tt));
                    if prev_lists.contains_key(tt) {
                        if !advertises(tools@.take(i as int), tt) {
                            assert(old(self).owners().contains_key(tt));
                        } else if !old(self).provider_lists().contains_key(tt) {
                            assert(prev_lists[tt] =~= seq![server@]);
                            assert(prev_lists[tt][0] == server@);
                            assert(prev_lists[tt].contains(server@));
                        } else if !old(self).provider_lists()[tt].contains(server@) {
                            let l = old(self).provider_lists()[tt].push(server@);
                            assert(l[l.len() - 1] == server@);
                            assert(l.contains(server@));
                        }
                    } else {
                        assert(!old(self).owners().contains_key(tt));
                    }
                }
            }
            proof {
                let ip = (i + 1) as int;
                assert forall|t: Seq<char>| #[trigger] self.provider_lists().contains_key(t) implies self.provider_lists()[t] == (
                    if !advertises(tools@.take(ip), t) {
                        old(self).provider_lists()[t]
                    } else if !old(self).provider_lists().contains_key(t) {
                        seq![server@]
                    } else if old(self).provider_lists()[t].contains(server@) {
                        old(self).provider_lists()[t]
                    } else {
                        old(self).provider_lists()[t].push(server@)
                    }) by {
                    if t != tool@ || tool@.len() == 0 {
                        assert(advertises(tools@.take(ip), t) == advertises(tools@.take(i as int), t));
                        assert(self.provider_lists()[t] == prev_lists[t]);
                    } else {
                        assert(advertises(tools@.take(ip), t));
                        let before = advertises(tools@.take(i as int), t);
                        assert(prev_owners.contains_key(t) == prev_lists.contains_key(t));
                        if !old(self).provider_lists().contains_key(t) {
                            assert(!old(self).owners().contains_key(t));
                            if prev_lists.contains_key(t) {
                                assert(before);
                                assert(prev_lists[t] == seq![server@]);
                                assert(prev_lists[t][0] == server@);
                                assert(prev_lists[t].contains(server@));
                            }
                        } else {
                            assert(old(self).owners().contains_key(t));
                            assert(prev_lists.contains_key(t));
                            if !old(self).provider_lists()[t].contains(server@) && before {
                                let l = old(self).provider_lists()[t].push(server@);
                                assert(prev_lists[t] == l);
                                assert(l[l.len() - 1] == server@);
                                assert(l.contains(server@));
                            }
                        }
                    }
                }
            }
            i += 1;
        }
        assert(tools@.take(tools@.len() as int) =~= tools@);
        assert forall|t: Seq<char>| #[trigger] self.provider_lists().contains_key(t) <==> (old(self).provider_lists().contains_key(t)
            || advertises(tools@, t)) by {
            assert(self.owners().contains_key(t) == self.provider_lists().contains_key(t));
            assert(old(self).owners().contains_key(t) == old(self).provider_lists().contains_key(t));
        }
    }

    /// Record that `server` advertises the non-empty name `tool`.
    fn add_provider(&mut self, tool: &str, server: &str)
        requires
            old(self).wf(),
            tool@.len() > 0,
        ensures
            final(self).wf(),
            final(self).owners() == if old(self).owners().contains_key(tool@) {
                old(self).owners()
            } else {
                old(self).owners().insert(tool@, server@)
            },
            final(self).provider_lists() == old(self).provider_lists().insert(
                tool@,
                if !old(self).provider_lists().contains_key(tool@) {
                    seq![server@]
                } else if old(self).provider_lists()[tool@].contains(server@) {
                    old(self).provider_lists()[tool@]
                } else {
                    old(self).provider_lists()[tool@].push(server@)
                },
            ),
    {
        let mut list = match self.providers.remove(tool) {
            Some(l) => l,
            None => Vec::new(),
        };
        let ghost old_list = strings_view(list@);
        proof {
            if old(self).provider_lists().contains_key(tool@) {
                assert(old_list == old(self).provider_lists()[tool@]);
            } else {
                assert(old_list =~= Seq::<Seq<char>>::empty());
            }
        }
        let mut present = false;
        let mut j: usize = 0;
        while j < list.len()
            invariant
                j <= list@.len(),
                strings_view(list@) == old_list,
                present <==> exists|k: int| 0 <= k < j && #[trigger] list@[k]@ == server@,
            decreases list@.len() - j,
        {
            if str_eq(list[j].as_str(), server) {
                present = true;
            }
            j += 1;
        }
        proof {
            assert(present == old_list.contains(server@)) by {
                if present {
                    let k = choose|k: int| 0 <= k < list@.len() && #[trigger] list@[k]@ == server@;
                    assert(old_list[k] == server@);
                }
                if old_list.contains(server@) {
                    let k = choose|k: int| 0 <= k < old_list.len() && #[trigger] old_list[k] == server@;
                    assert(list@[k]@ == server@);
                }
            }
        }
        if !present {
            list.push(server.to_owned());
            assert(strings_view(list@) =~= old_list.push(server@));
        }
        let ghost new_val = if !old(self).provider_lists().contains_key(tool@) {
            seq![server@]
        } else if old(self).provider_lists()[tool@].contains(server@) {
            old(self).provider_lists()[tool@]
        } else {
            old(self).provider_lists()[tool@].push(server@)
        };
        assert(strings_view(list@) =~= new_val);
        self.providers.insert(tool.to_owned(), list);
        if !self.owners.contains_key(tool) {
            self.owners.insert(tool.to_owned(), server.to_owned());
        }
        proof {
            assert(self.owners() =~= if old(self).owners().contains_key(tool@) {
                old(self).owners()
            } else {
                old(self).owners().insert(tool@, server@)
            });
            assert(self.provider_lists() =~= old(self).provider_lists().insert(
                tool@,
                if !old(self).provider_lists().contains_key(tool@) {
                    seq![server@]
                } else if old(self).provider_lists()[tool@].contains(server@) {
                    old(self).provider_lists()[tool@]
                } else {
                    old(self).provider_lists()[tool@].push(server@)
                },
            ));
            if !old(self).provider_lists().contains_key(tool@) {
                assert(old_list =~= Seq::<Seq<char>>::empty());
                assert(seq![server@].no_duplicates());
            } else if !present {
                let l = old_list.push(server@);
                assert forall|a: int, b: int| 0 <= a < l.len() && 0 <= b < l.len() && a != b implies l[a] != l[b] by {
                    if a < old_list.len() && b < old_list.len() {
                    } else if a < old_list.len() {
                        assert(old_list.contains(old_list[a]));
                    } else {
                        assert(old_list.contains(old_list[b]));
                    }
                }
            }
        }
    }

    /// The server that owns default routing for `tool`, if any.
    pub fn owner(&self, tool: &str) -> (o: Option<&str>)
        requires
            self.wf(),
        ensures
            match o {
                Some(s) => self.owners().contains_key(tool@) && s@ == self.owners()[tool@],
                None => !self.owners().contains_key(tool@),
            },
    {
        match self.owners.get(tool) {
            Some(s) => Some(s.as_str()),
            None => None,
        }
    }

    /// Every server that advertised `tool`, in registration order (the first owns it).
    pub fn providers(&self, tool: &str) -> (v: Vec<String>)
        requires
            self.wf(),
        ensures
            self.provider_lists().contains_key(tool@) ==> strings_view(v@) == self.provider_lists()[tool@],
            !self.provider_lists().contains_key(tool@) ==> v@.len() == 0,
    {
        match self.providers.get(tool) {
            Some(list) => clone_strings(list),
            None => Vec::new(),
        }
    }

    /// Tool names advertised by more than one server, mapped to those servers.
    pub fn collisions(&self) -> (c: StrMap<Vec<String>>)
        requires
            self.wf(),
        ensures
            c.wf(),
            forall|t: Seq<char>| #[trigger] c@.contains_key(t) <==> (self.provider_lists().contains_key(t)
                && self.provider_lists()[t].len() > 1),
            forall|t: Seq<char>| #[trigger] c@.contains_key(t) ==> strings_view(c@[t]@) == self.provider_lists()[t],
    {
        let mut c: StrMap<Vec<String>> = StrMap::new();
        proof {
            self.providers.lemma_len();
            self.providers.lemma_key_order();
        }
        let n = self.providers.len();
        let mut i: usize = 0;
        while i < n
            invariant
                self.wf(),
                n == self.providers.key_order().len(),
                i <= n,
                c.wf(),
                forall|t: Seq<char>| #[trigger] c@.contains_key(t) <==> (self.providers.key_order().take(i as int).contains(t)
                    && self.provider_lists()[t].len() > 1),
                forall|t: Seq<char>| #[trigger] c@.contains_key(t) ==> strings_view(c@[t]@) == self.provider_lists()[t],
            decreases n - i,
        {
            let ghost ko = self.providers.key_order();
            let list = self.providers.value_at(i);
            let name = self.providers.key_at(i);
            if list.len() > 1 {
                c.insert(name.clone(), clone_strings(list));
            }
            proof {
                assert forall|t: Seq<char>| #[trigger] ko.take(i + 1).contains(t) == (ko.take(i as int).contains(t) || t == ko[i as int]) by {
                    if ko.take(i + 1).contains(t) {
                        let k = choose|k: int| 0 <= k < i + 1 && #[trigger] ko.take(i + 1)[k] == t;
                        if k < i {
                            assert(ko.take(i as int)[k] == t);
                        }
                    }
                    if ko.take(i as int).contains(t) {
                        let k = choose|k: int| 0 <= k < i && #[trigger] ko.take(i as int)[k] == t;
                        assert(ko.take(i + 1)[k] == t);
                    }
                    if t == ko[i as int] {
                        assert(ko.take(i + 1)[i as int] == t);
                    }
                }
            }
            i += 1;
        }
        proof {
            let ko = self.providers.key_order();
            assert(ko.take(n as int) =~= ko);
        }
        c
    }
}

/// A copy of a list of strings.
pub fn clone_strings(v: &Vec<String>) -> (r: Vec<String>)
    ensures
        strings_view(r@) == strings_view(v@),
{
    let mut r: Vec<String> = Vec::new();
    let mut i: usize = 0;
    while i < v.len()
        invariant
            i <= v@.len(),
            strings_view(r@) == strings_view(v@.take(i as int)),
        decreases v@.len() - i,
    {
        r.push(v[i].clone());
        assert(strings_view(v@.take(i + 1)) =~= strings_view(v@.take(i as int)).push(v@[i as int]@));
        i += 1;
    }
    assert(v@.take(v@.len() as int) =~= v@);
    r
}

/// The distinct strings of `v`, each once, in order of first occurrence.
pub fn dedup_strings(v: &Vec<String>) -> (r: Vec<String>)
    ensures
        strings_view(r@).no_duplicates(),
        forall|s: Seq<char>| #[trigger] strings_view(r@).contains(s) <==> strings_view(v@).contains(s),
{
    let mut r: Vec<String> = Vec::new();
    let mut i: usize = 0;
    while i < v.len()
        invariant
            i <= v@.len(),
            strings_view(r@).no_duplicates(),
            forall|s: Seq<char>| #[trigger] strings_view(r@).contains(s) <==> strings_view(v@.take(i as int)).contains(s),
        decreases v@.len() - i,
    {
        let ghost before = strings_view(r@);
        let mut seen = false;
        let mut j: usize = 0;
        while j < r.len()
            invariant
                i < v@.len(),
                j <= r@.len(),
                before == strings_view(r@),
                seen == exists|k: int| 0 <= k < j && before[k] == v@[i as int]@,
            decreases r@.len() - j,
        {
            assert(before[j as int] == r@[j as int]@);
            if str_eq(r[j].as_str(), v[i].as_str()) {
                seen = true;
            }
            j += 1;
        }
        let ghost vi = strings_view(v@.take(i + 1));
        assert(vi =~= strings_view(v@.take(i as int)).push(v@[i as int]@));
        if !seen {
            r.push(v[i].clone());
            assert(strings_view(r@) =~= before.push(v@[i as int]@));
            assert forall|s: Seq<char>| #[trigger] strings_view(r@).contains(s) <==> vi.contains(s) by {
                if strings_view(r@).contains(s) {
                    let k = choose|k: int| 0 <= k < strings_view(r@).len() && strings_view(r@)[k] == s;
                    if k < before.len() {
                        assert(before.contains(s));
                        let m = choose|m: int| 0 <= m < strings_view(v@.take(i as int)).len() && strings_view(v@.take(i as int))[m] == s;
                        assert(vi[m] == s);
                    } else {
                        assert(vi[i as int] == s);
                    }
                }
                if vi.contains(s) {
                    let m = choose|m: int| 0 <= m < vi.len() && vi[m] == s;
                    if m < i {
                        assert(strings_view(v@.take(i as int))[m] == s);
                        assert(strings_view(v@.take(i as int)).contains(s));
                        assert(before.contains(s));
                        let k = choose|k: int| 0 <= k < before.len() && before[k] == s;
                        assert(strings_view(r@)[k] == s);
                    } else {
                        assert(strings_view(r@)[before.len() as int] == s);
                    }
                }
            }
        } else {
            assert forall|s: Seq<char>| #[trigger] strings_view(r@).contains(s) <==> vi.contains(s) by {
                if strings_view(r@).contains(s) {
                    let m = choose|m: int| 0 <= m < strings_view(v@.take(i as int)).len() && strings_view(v@.take(i as int))[m] == s;
                    assert(vi[m] == s);
                }
                if vi.contains(s) {
                    let m = choose|m: int| 0 <= m < vi.len() && vi[m] == s;
                    if m < i {
                        assert(strings_view(v@.take(i as int))[m] == s);
                        assert(strings_view(v@.take(i as int)).contains(s));
                    } else {
                        let k = choose|k: int| 0 <= k < before.len() && before[k] == v@[i as int]@;
                        assert(before[k] == s);
                    }
                }
            }
        }
        i += 1;
    }
    assert(v@.take(v@.len() as int) =~= v@);
    r
}

} // verus!

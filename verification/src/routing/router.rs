//! Multi-server dispatch.
//!
//! A `Router` holds one invoker per server plus a [`ToolRegistry`]. It picks
//! the invoker a tool call goes to: the tool's first-wins owner, or an
//! explicitly pinned server.

use vstd::prelude::*;

use crate::outcome::ToolOutcome;
use crate::routing::registry::ToolRegistry;
use crate::strmap::StrMap;
use crate::text::str_concat;

verus! {

/// Error-message prefix used when a tool can't be routed to a server.
pub const NO_SERVER_PREFIX: &'static str = "no server found for tool";

/// `"<NO_SERVER_PREFIX> '<tool>'"`.
pub open spec fn no_server_message(tool: Seq<char>) -> Seq<char> {
    NO_SERVER_PREFIX@ + " '"@ + tool + "'"@
}

/// `"<NO_SERVER_PREFIX> '<tool>': unknown server '<server>'"`.
pub open spec fn unknown_server_message(tool: Seq<char>, server: Seq<char>) -> Seq<char> {
    no_server_message(tool) + ": unknown server '"@ + server + "'"@
}

/// A failed outcome for `tool` whose error has characters `msg`.
pub open spec fn is_failure(out: ToolOutcome, tool: Seq<char>, msg: Seq<char>) -> bool {
    &&& out.tool@ == tool
    &&& !out.success
    &&& out.result is None
    &&& out.error matches Some(e) && e@ == msg
    &&& out.attempts == 1
    &&& !out.from_cache
}

/// Routes tool calls across per-server invokers of type `T`.
pub struct Router<T> {
    servers: StrMap<T>,
    registry: ToolRegistry,
}

impl<T> Router<T> {
    /// The invoker of each added server.
    pub closed spec fn servers(&self) -> Map<Seq<char>, T> {
        self.servers@
    }

    /// The routing registry.
    pub closed spec fn reg(&self) -> ToolRegistry {
        self.registry
    }

    /// Internal consistency.
    pub closed spec fn wf(&self) -> bool {
        self.servers.wf() && self.registry.wf()
    }

    /// An empty router.
    pub fn new() -> (r: Self)
        ensures
            r.wf(),
            r.reg().inv(),
            r.servers() == Map::<Seq<char>, T>::empty(),
            r.reg().owners() == Map::<Seq<char>, Seq<char>>::empty(),
            r.reg().provider_lists() == Map::<Seq<char>, Seq<Seq<char>>>::empty(),
    {
        Router { servers: StrMap::new(), registry: ToolRegistry::new() }
    }

    /// Add (or replace) the invoker for `server`.
    pub fn add_server(&mut self, server: &str, invoker: T)
        requires
            old(self).wf(),
        ensures
            final(self).wf(),
            final(self).servers() == old(self).servers().insert(server@, invoker),
            final(self).reg() == old(self).reg(),
    {
        self.servers.insert(server.to_owned(), invoker);
    }

    /// Record that `server` advertises `tools` (first-wins ownership, see
    /// [`ToolRegistry::register`]).
    pub fn register_tools(&mut self, server: &str, tools: &[String])
        requires
            old(self).wf(),
        ensures
            final(self).wf(),
            final(self).reg().inv(),
            final(self).servers() == old(self).servers(),
            crate::routing::registry::registered(old(self).reg(), final(self).reg(), server@, tools@),
    {
        self.registry.register(server, tools);
    }

    /// The server that owns default routing for `tool`.
    pub fn server_for_tool(&self, tool: &str) -> (o: Option<&str>)
        requires
            self.wf(),
        ensures
            match o {
                Some(s) => self.reg().owners().contains_key(tool@) && s@ == self.reg().owners()[tool@],
                None => !self.reg().owners().contains_key(tool@),
            },
    {
        self.registry.owner(tool)
    }

    /// Every server advertising `tool`, in registration order.
    pub fn servers_for_tool(&self, tool: &str) -> (v: Vec<String>)
        requires
            self.wf(),
        ensures
            self.reg().provider_lists().contains_key(tool@) ==> crate::config::strings_view(v@)
                == self.reg().provider_lists()[tool@],
            !self.reg().provider_lists().contains_key(tool@) ==> v@.len() == 0,
    {
        self.registry.providers(tool)
    }

    /// Tool names advertised by more than one server, mapped to those servers.
    pub fn collisions(&self) -> (c: StrMap<Vec<String>>)
        requires
            self.wf(),
        ensures
            c.wf(),
            forall|t: Seq<char>| #[trigger] c@.contains_key(t) <==> (self.reg().provider_lists().contains_key(t)
                && self.reg().provider_lists()[t].len() > 1),
            forall|t: Seq<char>| #[trigger] c@.contains_key(t) ==> crate::config::strings_view(c@[t]@)
                == self.reg().provider_lists()[t],
    {
        self.registry.collisions()
    }

    /// The invoker a call to `tool` goes to: its first-wins owner's. A tool
    /// with no owner, or whose owner was never added, yields the failed outcome
    /// `"no server found for tool '<tool>'"`.
    pub fn route(&self, tool: &str) -> (r: Result<&T, ToolOutcome>)
        requires
            self.wf(),
        ensures
            match r {
                Ok(inv) => self.reg().owners().contains_key(tool@) && self.servers().contains_key(
                    self.reg().owners()[tool@],
                ) && *inv == self.servers()[self.reg().owners()[tool@]],
                Err(out) => (!self.reg().owners().contains_key(tool@) || !self.servers().contains_key(
                    self.reg().owners()[tool@],
                )) && is_failure(out, tool@, no_server_message(tool@)),
            },
    {
        match self.registry.owner(tool) {
            Some(server) => match self.servers.get(server) {
                Some(inv) => Ok(inv),
                None => Err(no_server_outcome(tool)),
            },
            None => Err(no_server_outcome(tool)),
        }
    }

    /// The invoker of the explicitly pinned `server`, bypassing ownership. An
    /// unknown server yields the failed outcome
    /// `"no server found for tool '<tool>': unknown server '<server>'"`.
    pub fn route_on(&self, server: &str, tool: &str) -> (r: Result<&T, ToolOutcome>)
        requires
            self.wf(),
        ensures
            match r {
                Ok(inv) => self.servers().contains_key(server@) && *inv == self.servers()[server@],
                Err(out) => !self.servers().contains_key(server@) && is_failure(
                    out,
                    tool@,
                    unknown_server_message(tool@, server@),
                ),
            },
    {
        match self.servers.get(server) {
            Some(inv) => Ok(inv),
            None => {
                let msg = str_concat(
                    str_concat(str_concat(no_server_text(tool).as_str(), ": unknown server '").as_str(), server).as_str(),
                    "'",
                );
                Err(ToolOutcome::err(tool, msg.as_str()))
            },
        }
    }
}

/// `"no server found for tool '<tool>'"`.
fn no_server_text(tool: &str) -> (s: String)
    ensures
        s@ == no_server_message(tool@),
{
    str_concat(str_concat(str_concat(NO_SERVER_PREFIX, " '").as_str(), tool).as_str(), "'")
}

/// The failed outcome for a tool that can't be routed.
fn no_server_outcome(tool: &str) -> (out: ToolOutcome)
    ensures
        is_failure(out, tool@, no_server_message(tool@)),
{
    ToolOutcome::err(tool, no_server_text(tool).as_str())
}

} // verus!

//! Host-side tool broker policy.
//!
//! A sandboxed guest connects over a socket and speaks the wire protocol:
//! `hello` (token auth), `list_tools`, `call_tool` (run a tool on the host and
//! return its JSON), and `result` (the run's final value). The guest is
//! untrusted, so everything privileged is decided here: the token, a
//! host-authoritative namespace, an optional tool allowlist and a ceiling on
//! tool calls. The session serving the socket decodes each frame into a
//! [`BrokerRequest`], asks the session what to do, and performs it.

use vstd::prelude::*;

use crate::config::str_eq;
use crate::json::clone_value;
use crate::outcome::ToolOutcome;
use crate::routing::registry::dedup_strings;
use crate::text::str_concat;

verus! {

/// Broker policy: who the guest is and what it may call.
#[derive(Debug, Clone)]
pub struct BrokerConfig {
    /// Shared secret the guest must present in `hello`.
    pub token: String,
    /// The host-authoritative namespace; a guest that names another is rejected.
    pub namespace: String,
    /// Tools the guest may call. `None` allows all; entries may be bare
    /// (`"name"`) or namespace-qualified (`"ns.name"`).
    pub allowed_tools: Option<Vec<String>>,
    /// Maximum successful tool calls the guest may make.
    pub max_tool_calls: usize,
}

/// `v` names each distinct name of `set` exactly once, and nothing else.
pub open spec fn names_of(v: Seq<String>, set: Seq<String>) -> bool {
    &&& crate::config::strings_view(v).no_duplicates()
    &&& forall|s: Seq<char>|
        #[trigger] crate::config::strings_view(v).contains(s) <==> crate::config::strings_view(set).contains(s)
}

/// Some entry of `names` has characters `n`.
pub open spec fn lists(names: Seq<String>, n: Seq<char>) -> bool {
    exists|i: int| 0 <= i < names.len() && #[trigger] names[i]@ == n
}

impl BrokerConfig {
    /// Whether the guest may call `name`: no allowlist, or the allowlist holds
    /// `name` or `<namespace>.<name>`.
    pub open spec fn allows(&self, name: Seq<char>) -> bool {
        match self.allowed_tools {
            None => true,
            Some(set) => lists(set@, name) || lists(set@, self.namespace@ + "."@ + name),
        }
    }

    /// Whether the guest may call `name`.
    pub fn is_allowed(&self, name: &str) -> (b: bool)
        ensures
            b == self.allows(name@),
    {
        match &self.allowed_tools {
            None => true,
            Some(set) => {
                let qualified = str_concat(str_concat(self.namespace.as_str(), ".").as_str(), name);
                contains_string(set, name) || contains_string(set, qualified.as_str())
            },
        }
    }

    /// The names the guest is told it may call: the allowlist's distinct
    /// names, or none when the host pins no list (an open set can't be
    /// enumerated).
    pub fn list_tools(&self) -> (v: Vec<String>)
        ensures
            self.allowed_tools matches Some(set) ==> names_of(v@, set@),
            self.allowed_tools is None ==> v@.len() == 0,
    {
        match &self.allowed_tools {
            Some(set) => dedup_strings(set),
            None => Vec::new(),
        }
    }
}

/// Whether `names` holds `n`.
fn contains_string(names: &Vec<String>, n: &str) -> (b: bool)
    ensures
        b == lists(names@, n@),
{
    let mut i: usize = 0;
    while i < names.len()
        invariant
            i <= names@.len(),
            forall|k: int| 0 <= k < i ==> #[trigger] names@[k]@ != n@,
        decreases names@.len() - i,
    {
        if str_eq(names[i].as_str(), n) {
            return true;
        }
        i += 1;
    }
    false
}

/// One message from the guest, decoded from a wire frame.
#[derive(Debug)]
pub struct BrokerRequest {
    /// The message id, echoed in the reply (JSON `null` when absent).
    pub id: serde_json::Value,
    /// The `method` field, when it is a string.
    pub method: Option<String>,
    /// The `token` field, when it is a string (used by `hello`).
    pub token: Option<String>,
    /// `params.name`, when it is a string (used by `call_tool`).
    pub name: Option<String>,
    /// `params.namespace`, when it is a string (used by `call_tool`).
    pub namespace: Option<String>,
    /// `params.arguments` (an empty object when absent).
    pub arguments: serde_json::Value,
    /// `params.value` (JSON `null` when absent; used by `result`).
    pub value: serde_json::Value,
}

/// The body of a reply to the guest.
#[derive(Debug)]
pub enum ReplyBody {
    /// `{"ok": true}`.
    Ack,
    /// `{"ok": true, "value": <v>}`; `None` is sent as JSON `null`.
    Value(Option<serde_json::Value>),
    /// `{"ok": true, "value": [<names>]}`.
    Names(Vec<String>),
    /// `{"ok": false, "error": <message>}`.
    Error(String),
}

/// A reply to the guest: the request's id and the body.
#[derive(Debug)]
pub struct BrokerReply {
    /// The id of the request answered.
    pub id: serde_json::Value,
    /// What is answered.
    pub body: ReplyBody,
}

/// What the session serving the socket does next.
#[derive(Debug)]
pub enum BrokerAction {
    /// Send the reply and read the next request.
    Reply(BrokerReply),
    /// Send the reply and end the session.
    Close(BrokerReply),
    /// Run the host tool `name` with `arguments`, then report its outcome
    /// back with [`BrokerSession::tool_finished`] for the request `id`.
    CallTool { id: serde_json::Value, name: String, arguments: serde_json::Value },
}

/// The reply is an error with message `msg`.
pub open spec fn is_error_reply(r: BrokerReply, id: serde_json::Value, msg: Seq<char>) -> bool {
    r.id == id && (r.body matches ReplyBody::Error(e) && e@ == msg)
}

/// Why a `call_tool` request is refused before running, if it is.
pub open spec fn call_refusal(cfg: BrokerConfig, req: BrokerRequest) -> Option<Seq<char>> {
    match req.name {
        None => Some("missing tool name"@),
        Some(name) => if req.namespace matches Some(ns) && ns@ != cfg.namespace@ {
            Some("namespace not permitted: "@ + req.namespace->0@)
        } else if !cfg.allows(name@) {
            Some("tool not permitted: "@ + name@)
        } else {
            None
        },
    }
}

/// Why a `call_tool` request is refused in session `s`, if it is: before the
/// guest has passed the handshake, once the run has produced its result, once
/// the tool-call ceiling is reached, or for a [`call_refusal`] reason.
pub open spec fn call_rejection(cfg: BrokerConfig, s: BrokerSession, req: BrokerRequest) -> Option<Seq<char>> {
    if !s.authorized {
        Some("unauthorized"@)
    } else if s.result is Some {
        Some("run already completed"@)
    } else if s.tool_calls >= cfg.max_tool_calls {
        Some("tool call limit exceeded"@)
    } else {
        call_refusal(cfg, req)
    }
}

/// What a guest session produced.
#[derive(Debug)]
pub struct BrokerSession {
    /// The run's final value (the first `result` message), if the guest sent one.
    pub result: Option<serde_json::Value>,
    /// How many tool calls succeeded.
    pub tool_calls: usize,
    /// Whether the guest passed the `hello` handshake.
    pub authorized: bool,
}

impl BrokerSession {
    /// A session before the handshake.
    pub fn new() -> (s: Self)
        ensures
            s.result is None,
            s.tool_calls == 0,
            !s.authorized,
    {
        BrokerSession { result: None, tool_calls: 0, authorized: false }
    }

    /// The handshake: the first message must be `hello` with the configured
    /// token. Otherwise the guest is told `unauthorized` and the session ends.
    pub fn hello(&mut self, cfg: &BrokerConfig, req: &BrokerRequest) -> (a: BrokerAction)
        ensures
            *final(self) == after_hello(*cfg, *old(self), *req),
            final(self).result == old(self).result,
            final(self).tool_calls == old(self).tool_calls,
            ({
                let good = (req.method matches Some(m) && m@ == "hello"@) && (req.token matches Some(t)
                    && t@ == cfg.token@);
                &&& final(self).authorized == (old(self).authorized || good)
                &&& good ==> (a matches BrokerAction::Reply(r) && r.id == req.id && r.body is Ack)
                &&& !good ==> (a matches BrokerAction::Close(r) && is_error_reply(r, req.id, "unauthorized"@))
            }),
    {
        proof {
            reveal_strlit("hello");
            reveal_strlit("");
            assert("hello"@.len() == 5);
            assert(""@.len() == 0);
        }
        let ok_method = match &req.method {
            Some(m) => str_eq(m.as_str(), "hello"),
            None => false,
        };
        let ok_token = match &req.token {
            Some(t) => str_eq(t.as_str(), cfg.token.as_str()),
            None => false,
        };
        let id = clone_value(&req.id);
        if !(ok_method && ok_token) {
            assert(after_hello(*cfg, *self, *req) == *self);
            return BrokerAction::Close(BrokerReply { id, body: ReplyBody::Error("unauthorized".to_owned()) });
        }
        self.authorized = true;
        BrokerAction::Reply(BrokerReply { id, body: ReplyBody::Ack })
    }

    /// Handle one request after the handshake.
    ///
    /// `list_tools` answers with [`BrokerConfig::list_tools`]. `call_tool` is
    /// refused when [`call_rejection`] gives a reason (an unauthorized
    /// session among them); otherwise the tool is to be run. `result` records
    /// the first value sent, is acknowledged, and ends the session (the guest
    /// is served until it disconnects or sends its result). Anything else is
    /// answered `unknown method: <method>`.
    pub fn handle(&mut self, cfg: &BrokerConfig, req: &BrokerRequest) -> (a: BrokerAction)
        ensures
            !(a is CallTool) ==> *final(self) == after_request(*cfg, *old(self), *req, false),
            a is CallTool ==> *final(self) == *old(self) && method_of(*req) == "call_tool"@ && call_rejection(
                *cfg,
                *old(self),
                *req,
            ) is None,
            final(self).tool_calls == old(self).tool_calls,
            final(self).authorized == old(self).authorized,
            ({
                let m = match req.method {
                    Some(m) => m@,
                    None => ""@,
                };
                if m == "list_tools"@ {
                    &&& final(self).result == old(self).result
                    &&& (a matches BrokerAction::Reply(r) && r.id == req.id && (r.body matches ReplyBody::Names(v)
                        && (cfg.allowed_tools matches Some(set) ==> names_of(v@, set@)) && (cfg.allowed_tools is None
                        ==> v@.len() == 0)))
                } else if m == "call_tool"@ {
                    &&& final(self).result == old(self).result
                    &&& match call_rejection(*cfg, *old(self), *req) {
                        Some(msg) => (a matches BrokerAction::Reply(r) && is_error_reply(r, req.id, msg)),
                        None => (a matches BrokerAction::CallTool { id, name, arguments } && id == req.id
                            && (req.name matches Some(n) && name@ == n@) && arguments == req.arguments),
                    }
                } else if m == "result"@ {
                    &&& final(self).result == if old(self).result is None {
                        Some(req.value)
                    } else {
                        old(self).result
                    }
                    &&& (a matches BrokerAction::Close(r) && r.id == req.id && r.body is Ack)
                } else {
                    &&& final(self).result == old(self).result
                    &&& (a matches BrokerAction::Reply(r) && is_error_reply(r, req.id, "unknown method: "@ + m))
                }
            }),
    {
        proof {
            reveal_strlit("call_tool");
            reveal_strlit("result");
            assert("call_tool"@.len() == 9);
            assert("result"@.len() == 6);
            reveal_strlit("list_tools");
            assert("list_tools"@.len() == 10);
        }
        let id = clone_value(&req.id);
        let method: &str = match &req.method {
            Some(m) => m.as_str(),
            None => "",
        };
        if str_eq(method, "list_tools") {
            BrokerAction::Reply(BrokerReply { id, body: ReplyBody::Names(cfg.list_tools()) })
        } else if str_eq(method, "call_tool") {
            if !self.authorized {
                return BrokerAction::Reply(error_reply(id, "unauthorized".to_owned()));
            }
            if self.result.is_some() {
                return BrokerAction::Reply(error_reply(id, "run already completed".to_owned()));
            }
            if self.tool_calls >= cfg.max_tool_calls {
                return BrokerAction::Reply(error_reply(id, "tool call limit exceeded".to_owned()));
            }
            let name = match &req.name {
                Some(n) => n,
                None => {
                    return BrokerAction::Reply(error_reply(id, "missing tool name".to_owned()));
                },
            };
            if let Some(ns) = &req.namespace {
                if !str_eq(ns.as_str(), cfg.namespace.as_str()) {
                    let msg = str_concat("namespace not permitted: ", ns.as_str());
                    return BrokerAction::Reply(error_reply(id, msg));
                }
            }
            if !cfg.is_allowed(name.as_str()) {
                let msg = str_concat("tool not permitted: ", name.as_str());
                return BrokerAction::Reply(error_reply(id, msg));
            }
            BrokerAction::CallTool { id, name: name.clone(), arguments: clone_value(&req.arguments) }
        } else if str_eq(method, "result") {
            if self.result.is_none() {
                self.result = Some(clone_value(&req.value));
            }
            BrokerAction::Close(BrokerReply { id, body: ReplyBody::Ack })
        } else {
            let msg = str_concat("unknown method: ", method);
            BrokerAction::Reply(error_reply(id, msg))
        }
    }

    /// Report the outcome of a tool run for request `id`: a success counts
    /// toward the ceiling and answers with its result; a failure answers with
    /// its error (`"tool error"` when it carries none).
    pub fn tool_finished(&mut self, id: serde_json::Value, outcome: &ToolOutcome) -> (r: BrokerReply)
        requires
            old(self).tool_calls < usize::MAX,
        ensures
            final(self).result == old(self).result,
            final(self).authorized == old(self).authorized,
            r.id == id,
            outcome.success ==> final(self).tool_calls == old(self).tool_calls + 1 && (r.body matches ReplyBody::Value(v)
                && v == outcome.result),
            !outcome.success ==> final(self).tool_calls == old(self).tool_calls && (r.body matches ReplyBody::Error(e)
                && e@ == match outcome.error {
                Some(msg) => msg@,
                None => "tool error"@,
            }),
    {
        if outcome.success {
            self.tool_calls = self.tool_calls + 1;
            let v = match &outcome.result {
                Some(v) => Some(clone_value(v)),
                None => None,
            };
            BrokerReply { id, body: ReplyBody::Value(v) }
        } else {
            let msg = match &outcome.error {
                Some(e) => e.clone(),
                None => "tool error".to_owned(),
            };
            error_reply(id, msg)
        }
    }
}

/// An error reply.
fn error_reply(id: serde_json::Value, msg: String) -> (r: BrokerReply)
    ensures
        r.id == id,
        (r.body matches ReplyBody::Error(e) && e@ == msg@),
{
    BrokerReply { id, body: ReplyBody::Error(msg) }
}

/// A host tool runs only after the guest has passed the token handshake,
/// before the run has produced its result, for an allowed tool in the host's
/// namespace, and while fewer than `max_tool_calls` calls have succeeded; so
/// counting its success keeps the session within the ceiling.
pub proof fn lemma_admitted_call_within_ceiling(cfg: BrokerConfig, s: BrokerSession, req: BrokerRequest)
    requires
        call_rejection(cfg, s, req) is None,
    ensures
        s.authorized,
        req.name matches Some(n) && cfg.allows(n@),
        req.namespace matches Some(ns) ==> ns@ == cfg.namespace@,
        s.result is None,
        s.tool_calls + 1 <= cfg.max_tool_calls,
{
}

/// The method a request names (empty when it names none).
pub open spec fn method_of(req: BrokerRequest) -> Seq<char> {
    match req.method {
        Some(m) => m@,
        None => ""@,
    }
}

/// The session after the handshake `req`: authorized when it is `hello`
/// with the configured token.
pub open spec fn after_hello(cfg: BrokerConfig, s: BrokerSession, req: BrokerRequest) -> BrokerSession {
    let good = method_of(req) == "hello"@ && (req.token matches Some(t) && t@ == cfg.token@);
    BrokerSession { authorized: s.authorized || good, ..s }
}

/// The session after request `req` and, when it ran a host tool, that tool's
/// result (`succeeded`): a `result` records the first value, an admitted
/// `call_tool` that succeeded counts one call, and nothing else changes it.
pub open spec fn after_request(cfg: BrokerConfig, s: BrokerSession, req: BrokerRequest, succeeded: bool) -> BrokerSession {
    let m = method_of(req);
    if m == "result"@ {
        BrokerSession { result: if s.result is None { Some(req.value) } else { s.result }, ..s }
    } else if m == "call_tool"@ && call_rejection(cfg, s, req) is None && succeeded {
        BrokerSession { tool_calls: (s.tool_calls + 1) as usize, ..s }
    } else {
        s
    }
}

/// The session after a run of requests after the handshake, `succeeded[i]`
/// telling whether the tool run for request `i`, if any, succeeded.
pub open spec fn after_requests(
    cfg: BrokerConfig,
    s: BrokerSession,
    reqs: Seq<BrokerRequest>,
    succeeded: Seq<bool>,
) -> BrokerSession
    decreases reqs.len(),
{
    if reqs.len() == 0 || succeeded.len() < reqs.len() {
        s
    } else {
        let n = reqs.len() - 1;
        after_request(cfg, after_requests(cfg, s, reqs.take(n), succeeded.take(n)), reqs[n], succeeded[n])
    }
}

/// What every session keeps: calls are counted only for an authorized
/// guest, and never past the ceiling.
pub open spec fn session_inv(cfg: BrokerConfig, s: BrokerSession) -> bool {
    &&& s.tool_calls <= cfg.max_tool_calls
    &&& s.tool_calls > 0 ==> s.authorized
}

/// Over any sequence of guest requests and tool results, a session that
/// starts fresh and passes (or fails) the handshake keeps its invariant: no
/// tool call is counted unless the guest presented the token, the count
/// never exceeds `max_tool_calls`, and once a result is recorded it never
/// changes.
pub proof fn lemma_session_keeps_ceiling(
    cfg: BrokerConfig,
    hello: BrokerRequest,
    reqs: Seq<BrokerRequest>,
    succeeded: Seq<bool>,
)
    ensures
        ({
            let s0 = after_hello(cfg, BrokerSession { result: None, tool_calls: 0, authorized: false }, hello);
            let s = after_requests(cfg, s0, reqs, succeeded);
            &&& session_inv(cfg, s)
            &&& s.tool_calls > 0 ==> method_of(hello) == "hello"@ && (hello.token matches Some(t) && t@ == cfg.token@)
        }),
{
    lemma_requests_keep_inv(cfg, after_hello(cfg, BrokerSession { result: None, tool_calls: 0, authorized: false }, hello), reqs, succeeded);
}

/// Each request keeps the session invariant, and a recorded result stays.
pub proof fn lemma_requests_keep_inv(cfg: BrokerConfig, s: BrokerSession, reqs: Seq<BrokerRequest>, succeeded: Seq<bool>)
    requires
        session_inv(cfg, s),
    ensures
        session_inv(cfg, after_requests(cfg, s, reqs, succeeded)),
        after_requests(cfg, s, reqs, succeeded).authorized == s.authorized,
        s.result is Some ==> after_requests(cfg, s, reqs, succeeded).result == s.result,
    decreases reqs.len(),
{
    if reqs.len() > 0 && succeeded.len() >= reqs.len() {
        let n = reqs.len() - 1;
        lemma_requests_keep_inv(cfg, s, reqs.take(n), succeeded.take(n));
    }
}

} // verus!

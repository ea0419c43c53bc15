//! MCP transport adapter policy: how an MCP `tools/call` reply becomes a
//! [`ToolOutcome`].
//!
//! An [`McpInvoker`] wraps an MCP client. The call itself (and its optional
//! timeout) is transport I/O; its reply is reduced to an [`McpReply`] of plain
//! values, which [`McpReply::to_outcome`] maps onto an outcome.

use vstd::prelude::*;

use crate::isolation::wire::json_text;
use crate::outcome::ToolOutcome;
use crate::text::str_concat;

verus! {

/// A tool invoker backed by an MCP client `C`.
pub struct McpInvoker<C> {
    client: C,
}

impl<C> McpInvoker<C> {
    /// The wrapped client.
    pub closed spec fn spec_client(&self) -> C {
        self.client
    }

    /// Wrap an MCP client.
    pub fn new(client: C) -> (i: Self)
        ensures
            i.spec_client() == client,
    {
        McpInvoker { client }
    }

    /// Borrow the wrapped client.
    pub fn client(&self) -> (c: &C)
        ensures
            *c == self.spec_client(),
    {
        &self.client
    }
}

/// What the runtime reads of an MCP `tools/call` result.
#[derive(Debug)]
pub struct McpReply {
    /// The result's `isError` flag.
    pub is_error: bool,
    /// For each content block, its `text` field when that is a string.
    pub texts: Vec<Option<String>>,
    /// The content blocks serialized as JSON (the fallback error message).
    pub raw_content: String,
    /// The full result, kept as the success payload.
    pub payload: serde_json::Value,
}

/// The text fields present, in order.
pub open spec fn present_texts(texts: Seq<Option<String>>) -> Seq<Seq<char>>
    decreases texts.len(),
{
    if texts.len() == 0 {
        seq![]
    } else {
        present_texts(texts.drop_last()) + match texts.last() {
            Some(t) => seq![t@],
            None => seq![],
        }
    }
}

/// The pieces joined by newlines.
pub open spec fn join_newline(parts: Seq<Seq<char>>) -> Seq<char>
    decreases parts.len(),
{
    if parts.len() == 0 {
        seq![]
    } else if parts.len() == 1 {
        parts[0]
    } else {
        join_newline(parts.drop_last()) + "\n"@ + parts.last()
    }
}

/// The message of an MCP tool error: its text blocks joined by newlines, or
/// the raw JSON of the content when no block has text.
pub open spec fn error_text_spec(texts: Seq<Option<String>>, raw: Seq<char>) -> Seq<char> {
    if present_texts(texts).len() == 0 {
        raw
    } else {
        join_newline(present_texts(texts))
    }
}

/// The message of an MCP tool error.
pub fn error_text(texts: &Vec<Option<String>>, raw: &str) -> (m: String)
    ensures
        m@ == error_text_spec(texts@, raw@),
{
    let mut parts: Vec<&str> = Vec::new();
    let mut i: usize = 0;
    while i < texts.len()
        invariant
            i <= texts@.len(),
            parts@.map_values(|p: &str| p@) == present_texts(texts@.take(i as int)),
        decreases texts@.len() - i,
    {
        assert(texts@.take(i + 1).drop_last() =~= texts@.take(i as int));
        match &texts[i] {
            Some(t) => {
                parts.push(t.as_str());
                assert(parts@.map_values(|p: &str| p@) =~= present_texts(texts@.take(i + 1)));
            },
            None => {},
        }
        i += 1;
    }
    assert(texts@.take(texts@.len() as int) =~= texts@);
    if parts.len() == 0 {
        return raw.to_owned();
    }
    let mut out = parts[0].to_owned();
    let mut j: usize = 1;
    while j < parts.len()
        invariant
            1 <= j <= parts@.len(),
            out@ == join_newline(parts@.map_values(|p: &str| p@).take(j as int)),
        decreases parts@.len() - j,
    {
        let ghost pv = parts@.map_values(|p: &str| p@);
        assert(pv.take(j + 1).drop_last() =~= pv.take(j as int));
        out = str_concat(str_concat(out.as_str(), "\n").as_str(), parts[j]);
        j += 1;
    }
    assert(parts@.map_values(|p: &str| p@).take(parts@.len() as int) =~= parts@.map_values(|p: &str| p@));
    out
}

impl McpReply {
    /// Map the reply onto an outcome: an error reply fails with
    /// [`error_text`]; otherwise the full result is the success payload.
    pub fn to_outcome(self, tool: &str) -> (out: ToolOutcome)
        ensures
            out.tool@ == tool@,
            out.attempts == 1,
            !out.from_cache,
            self.is_error ==> !out.success && out.result is None && (out.error matches Some(e) && e@
                == error_text_spec(self.texts@, self.raw_content@)),
            !self.is_error ==> out.success && out.result == Some(self.payload) && out.error is None,
    {
        if self.is_error {
            ToolOutcome::err(tool, error_text(&self.texts, self.raw_content.as_str()).as_str())
        } else {
            ToolOutcome::ok(tool, self.payload)
        }
    }
}

/// Whether a JSON value is `null` (`serde_json::Value::is_null`): a function
/// of the value alone.
pub uninterp spec fn json_is_null(v: serde_json::Value) -> bool;

/// Whether `v` is JSON `null` (`serde_json::Value::is_null`), named
/// [`json_is_null`].
#[verifier::external_body]
fn is_null(v: &serde_json::Value) -> (b: bool)
    ensures
        b == json_is_null(*v),
{
    v.is_null()
}

/// An empty JSON object (`serde_json::Value::Object` of an empty map): it is
/// not `null`, and `serde_json::to_vec` writes it as the two bytes `{}`.
#[verifier::external_body]
fn empty_object() -> (v: serde_json::Value)
    ensures
        !json_is_null(v),
        json_text(v) == seq![123u8, 125u8],
{
    serde_json::Value::Object(serde_json::Map::new())
}

/// The arguments sent with an MCP `tools/call`: MCP requires an object, and a
/// bare `null` means "no arguments", so it becomes the empty object `{}`; anything
/// else is sent as given.
pub fn call_arguments(args: serde_json::Value) -> (r: serde_json::Value)
    ensures
        !json_is_null(args) ==> r == args,
        json_is_null(args) ==> !json_is_null(r) && json_text(r) == seq![123u8, 125u8],
{
    if is_null(&args) {
        empty_object()
    } else {
        args
    }
}

/// The outcome of a call that exceeded its timeout: `"tool '<tool>' timed out"`.
pub fn timeout_outcome(tool: &str) -> (out: ToolOutcome)
    ensures
        out.tool@ == tool@,
        !out.success,
        out.error matches Some(e) && e@ == "tool '"@ + tool@ + "' timed out"@,
        out.attempts == 1,
        !out.from_cache,
{
    let msg = str_concat(str_concat("tool '", tool).as_str(), "' timed out");
    ToolOutcome::err(tool, msg.as_str())
}

} // verus!

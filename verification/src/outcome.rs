//! The result currency that flows through every policy layer.

use vstd::prelude::*;

verus! {

/// Outcome of a tool invocation.
///
/// A transport failure is modelled as `success == false` with an `error`
/// message, so one type covers tool-reported and transport-level failures.
#[derive(Debug, Clone, PartialEq)]
pub struct ToolOutcome {
    /// Tool name this outcome is for.
    pub tool: String,
    /// Whether the call ultimately succeeded.
    pub success: bool,
    /// Result payload on success.
    pub result: Option<serde_json::Value>,
    /// Error message on failure.
    pub error: Option<String>,
    /// Number of invocation attempts made (at least 1); set by the retry layer.
    pub attempts: u32,
    /// Whether the result was served from the cache layer.
    pub from_cache: bool,
}

impl ToolOutcome {
    /// A successful outcome carrying `result`.
    pub fn ok(tool: &str, result: serde_json::Value) -> (out: Self)
        ensures
            out.tool@ == tool@,
            out.success,
            out.result == Some(result),
            out.error is None,
            out.attempts == 1,
            !out.from_cache,
    {
        ToolOutcome {
            tool: tool.to_owned(),
            success: true,
            result: Some(result),
            error: None,
            attempts: 1,
            from_cache: false,
        }
    }

    /// A failed outcome carrying an error message.
    pub fn err(tool: &str, error: &str) -> (out: Self)
        ensures
            out.tool@ == tool@,
            !out.success,
            out.result is None,
            out.error matches Some(e) && e@ == error@,
            out.attempts == 1,
            !out.from_cache,
    {
        ToolOutcome {
            tool: tool.to_owned(),
            success: false,
            result: None,
            error: Some(error.to_owned()),
            attempts: 1,
            from_cache: false,
        }
    }

    /// The outcome as a `Result`: the result payload on success (JSON `null`
    /// if there is none), the error message on failure (empty if there is none).
    pub fn into_result(self) -> (r: Result<serde_json::Value, String>)
        ensures
            self.success && self.result is Some ==> r == Ok::<serde_json::Value, String>(self.result->0),
            self.success ==> r is Ok,
            !self.success ==> (r matches Err(e) && e@ == match self.error {
                Some(m) => m@,
                None => Seq::<char>::empty(),
            }),
    {
        if self.success {
            match self.result {
                Some(v) => Ok(v),
                None => Ok(crate::json::json_null()),
            }
        } else {
            match self.error {
                Some(e) => Err(e),
                None => Err(String::new()),
            }
        }
    }

    /// `true` when the call did not succeed.
    pub fn is_error(&self) -> (b: bool)
        ensures
            b == !self.success,
    {
        !self.success
    }
}

} // verus!

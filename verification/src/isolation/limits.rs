//! Resource ceilings for a single isolated execution.
//!
//! The wall-clock timeout is enforced by the runner; CPU, memory and process
//! caps by the guest with POSIX `setrlimit`; the tool-call count by the
//! broker; and the captured-output size by the runner.

use vstd::prelude::*;
use vstd::string::StringSliceAdditionalSpecFns;
use vstd::utf8::{encode_utf8, is_char_boundary};

verus! {

/// Hard wall-clock ceiling, in milliseconds.
pub const DEFAULT_WALL_TIMEOUT: u64 = 30_000;

/// CPU-seconds ceiling (guards busy loops that don't trip the wall clock).
pub const DEFAULT_CPU_SECONDS: u64 = 15;

/// Address-space ceiling, in bytes.
pub const DEFAULT_MEMORY_BYTES: u64 = 268_435_456;

/// Captured stdout/stderr cap, in bytes.
pub const DEFAULT_MAX_OUTPUT_BYTES: usize = 65_536;

/// Broker tool-call cap.
pub const DEFAULT_MAX_TOOL_CALLS: usize = 100;

/// Process/thread cap.
pub const DEFAULT_MAX_PROCESSES: u64 = 64;

/// Resource ceilings for one isolated run.
#[derive(Debug, Clone, Copy)]
pub struct IsolationLimits {
    /// Hard wall-clock ceiling in milliseconds; the runner kills the guest when exceeded.
    pub wall_timeout: u64,
    /// CPU-seconds ceiling (`RLIMIT_CPU`); `None` disables.
    pub cpu_seconds: Option<u64>,
    /// Address-space ceiling in bytes (`RLIMIT_AS`); `None` disables.
    pub memory_bytes: Option<u64>,
    /// Maximum captured stdout/stderr bytes kept; the rest is truncated.
    pub max_output_bytes: usize,
    /// Maximum tool calls the guest may make through the broker.
    pub max_tool_calls: usize,
    /// Maximum processes/threads the guest may spawn (`RLIMIT_NPROC`); `None` disables.
    pub max_processes: Option<u64>,
}

impl IsolationLimits {
    /// The default ceilings: the `DEFAULT_*` constants.
    pub open spec fn default_spec() -> IsolationLimits {
        IsolationLimits {
            wall_timeout: DEFAULT_WALL_TIMEOUT,
            cpu_seconds: Some(DEFAULT_CPU_SECONDS),
            memory_bytes: Some(DEFAULT_MEMORY_BYTES),
            max_output_bytes: DEFAULT_MAX_OUTPUT_BYTES,
            max_tool_calls: DEFAULT_MAX_TOOL_CALLS,
            max_processes: Some(DEFAULT_MAX_PROCESSES),
        }
    }
}

impl Default for IsolationLimits {
    fn default() -> (l: Self)
        ensures
            l == IsolationLimits::default_spec(),
    {
        IsolationLimits {
            wall_timeout: DEFAULT_WALL_TIMEOUT,
            cpu_seconds: Some(DEFAULT_CPU_SECONDS),
            memory_bytes: Some(DEFAULT_MEMORY_BYTES),
            max_output_bytes: DEFAULT_MAX_OUTPUT_BYTES,
            max_tool_calls: DEFAULT_MAX_TOOL_CALLS,
            max_processes: Some(DEFAULT_MAX_PROCESSES),
        }
    }
}

impl IsolationLimits {
    /// Set the wall-clock ceiling, in milliseconds. (Builder.)
    pub fn with_wall_timeout(self, timeout: u64) -> (l: Self)
        ensures
            l == (IsolationLimits { wall_timeout: timeout, ..self }),
    {
        IsolationLimits { wall_timeout: timeout, ..self }
    }

    /// Set the CPU-seconds ceiling. (Builder.)
    pub fn with_cpu_seconds(self, seconds: u64) -> (l: Self)
        ensures
            l == (IsolationLimits { cpu_seconds: Some(seconds), ..self }),
    {
        IsolationLimits { cpu_seconds: Some(seconds), ..self }
    }

    /// Set the memory ceiling in bytes. (Builder.)
    pub fn with_memory_bytes(self, bytes: u64) -> (l: Self)
        ensures
            l == (IsolationLimits { memory_bytes: Some(bytes), ..self }),
    {
        IsolationLimits { memory_bytes: Some(bytes), ..self }
    }

    /// Set the maximum tool calls. (Builder.)
    pub fn with_max_tool_calls(self, calls: usize) -> (l: Self)
        ensures
            l == (IsolationLimits { max_tool_calls: calls, ..self }),
    {
        IsolationLimits { max_tool_calls: calls, ..self }
    }
}

/// `res` is `text` cut to at most `max` bytes of UTF-8: all of it when it
/// fits, else its longest prefix ending at a character boundary at or below
/// `max`.
pub open spec fn is_truncation(text: Seq<char>, max: usize, res: Seq<char>) -> bool {
    &&& encode_utf8(text).len() <= max ==> res == text
    &&& encode_utf8(text).len() > max ==> exists|end: int|
        #![trigger is_char_boundary(encode_utf8(text), end)]
        0 <= end <= max && is_char_boundary(encode_utf8(text), end) && (forall|k: int|
            end < k <= max ==> !is_char_boundary(encode_utf8(text), k)) && encode_utf8(res)
            == encode_utf8(text).subrange(0, end)
}

/// Truncate `text` to at most `max` bytes of UTF-8, cutting at the last
/// character boundary at or below `max` (so no character is split).
pub fn truncate_utf8(text: String, max: usize) -> (res: String)
    ensures
        is_truncation(text@, max, res@),
{
    let s = text.as_str();
    assert(s.spec_bytes() == encode_utf8(text@));
    if s.as_bytes().len() <= max {
        return text;
    }
    let ghost bytes = encode_utf8(text@);
    proof {
        vstd::utf8::encode_utf8_valid_utf8(text@);
        vstd::utf8::is_char_boundary_start_end_of_seq(bytes);
    }
    let mut end: usize = max;
    while end > 0 && !s.is_char_boundary(end)
        invariant
            end <= max,
            bytes == s.spec_bytes(),
            vstd::utf8::valid_utf8(bytes),
            is_char_boundary(bytes, 0),
            forall|k: int| end < k <= max ==> !is_char_boundary(bytes, k),
        decreases end,
    {
        end -= 1;
    }
    let (prefix, _) = s.split_at(end);
    let res = prefix.to_owned();
    assert(is_char_boundary(bytes, end as int));
    assert(encode_utf8(res@) == bytes.subrange(0, end as int));
    res
}

} // verus!

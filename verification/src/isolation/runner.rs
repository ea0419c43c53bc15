//! Running code in a sandbox with brokered tool access.
//!
//! A run generates a token and a socket, binds the broker, and launches the
//! guest bootstrap under a [`SandboxBackend`]:
//! `<wrapper argv> <python> guest.py job.json`. The guest executes the code and
//! calls host tools back through the broker. This module holds the runner's
//! configuration and the decisions a run makes; the process and socket work
//! happens around them.

use vstd::prelude::*;

use crate::config::strings_view;
use crate::isolation::backend::{HostFacts, LaunchCtx, SandboxBackend};
use crate::isolation::broker::{BrokerConfig, BrokerSession};
use crate::isolation::bubblewrap::{probe_path, push_str, push_string};
use crate::isolation::limits::{is_truncation, truncate_utf8, IsolationLimits};
use crate::routing::registry::{clone_strings, dedup_strings};

verus! {

/// Interpreters tried for the guest, in order of preference.
pub open spec fn python_candidates() -> Seq<Seq<char>> {
    seq!["/usr/bin/python3"@, "/opt/homebrew/bin/python3"@, "/usr/local/bin/python3"@]
}

/// Whether a filesystem path exists (`std::path::Path::exists`). The answer
/// depends on the disk, so nothing is promised of it.
#[verifier::external_body]
fn file_exists(p: &str) -> bool {
    std::path::Path::new(p).exists()
}

/// `present` is an answer that probing `path` on disk can give.
pub closed spec fn python_probe(path: &str, present: bool) -> bool {
    call_ensures(file_exists, (path,), present)
}

/// The interpreter chosen when `present[i]` says whether candidate `i`
/// exists: the first candidate present, else `python3` from `PATH`.
pub open spec fn python_choice(present: Seq<bool>) -> Seq<char> {
    if present[0] {
        python_candidates()[0]
    } else if present[1] {
        python_candidates()[1]
    } else if present[2] {
        python_candidates()[2]
    } else {
        "python3"@
    }
}

/// The interpreter is the first candidate that exists, in the order
/// `/usr/bin/python3`, `/opt/homebrew/bin/python3`, `/usr/local/bin/python3`,
/// else `python3`: for every presence vector, a candidate is chosen exactly
/// when it is present and every earlier candidate is absent, and `python3`
/// exactly when none is present.
pub proof fn lemma_python_choice_first_present(present: Seq<bool>)
    requires
        present.len() == 3,
    ensures
        python_candidates() == seq!["/usr/bin/python3"@, "/opt/homebrew/bin/python3"@, "/usr/local/bin/python3"@],
        forall|i: int|
            0 <= i < 3 ==> (python_choice(present) == #[trigger] python_candidates()[i] <==> present[i] && forall|j: int|
                0 <= j < i ==> !#[trigger] present[j]),
        python_choice(present) == "python3"@ <==> forall|i: int| 0 <= i < 3 ==> !#[trigger] present[i],
{
    reveal_strlit("/usr/bin/python3");
    reveal_strlit("/opt/homebrew/bin/python3");
    reveal_strlit("/usr/local/bin/python3");
    reveal_strlit("python3");
    let c = python_candidates();
    let q = "python3"@;
    assert(c[0].len() != c[1].len() && c[0].len() != c[2].len() && c[1].len() != c[2].len());
    assert(c[0].len() != q.len() && c[1].len() != q.len() && c[2].len() != q.len());
    assert forall|i: int|
        0 <= i < 3 implies (python_choice(present) == #[trigger] c[i] <==> present[i] && forall|j: int|
            0 <= j < i ==> !#[trigger] present[j]) by {
        if i == 0 {
        } else if i == 1 {
            if present[1] && !present[0] {
            }
            if python_choice(present) == c[1] {
                assert forall|j: int| 0 <= j < 1 implies !#[trigger] present[j] by {
                    assert(j == 0);
                }
            }
        } else {
            if python_choice(present) == c[2] {
                assert forall|j: int| 0 <= j < 2 implies !#[trigger] present[j] by {
                    assert(j == 0 || j == 1);
                }
            }
            if present[2] && (forall|j: int| 0 <= j < 2 ==> !#[trigger] present[j]) {
                assert(!present[0] && !present[1]);
            }
        }
    }
    if forall|i: int| 0 <= i < 3 ==> !#[trigger] present[i] {
        assert(!present[0] && !present[1] && !present[2]);
    }
}

/// The interpreter to use, given which of the candidates exist (in the order
/// of [`python_candidates`]).
pub fn pick_python(present: &[bool]) -> (p: String)
    requires
        present@.len() == 3,
    ensures
        p@ == python_choice(present@),
{
    if present[0] {
        "/usr/bin/python3".to_owned()
    } else if present[1] {
        "/opt/homebrew/bin/python3".to_owned()
    } else if present[2] {
        "/usr/local/bin/python3".to_owned()
    } else {
        "python3".to_owned()
    }
}

/// The guest interpreter: each candidate of [`python_candidates`] is probed
/// on disk, in order, and the first that exists is chosen, else `python3`
/// from `PATH`. Each presence flag is the probe's answer for that very path.
pub fn python_exe() -> (p: String)
    ensures
        exists|f: Seq<bool>|
            f.len() == 3 && python_probe("/usr/bin/python3", f[0]) && python_probe("/opt/homebrew/bin/python3", f[1])
                && python_probe("/usr/local/bin/python3", f[2]) && p@ == #[trigger] python_choice(f),
        python_candidates().contains(p@) || p@ == "python3"@,
{
    let a = probe_path(file_exists, "/usr/bin/python3");
    let b = probe_path(file_exists, "/opt/homebrew/bin/python3");
    let c = probe_path(file_exists, "/usr/local/bin/python3");
    let present = [a, b, c];
    let p = pick_python(&present);
    proof {
        let f = present@;
        assert(f =~= seq![a, b, c]);
        assert(f.len() == 3);
        assert(p@ == python_choice(f));
        if f[0] {
            assert(python_candidates()[0] == python_choice(f));
        } else if f[1] {
            assert(python_candidates()[1] == python_choice(f));
        } else if f[2] {
            assert(python_candidates()[2] == python_choice(f));
        }
    }
    p
}

/// Outcome of an isolated run.
#[derive(Debug)]
pub struct IsolatedResult {
    /// The code's return value (the broker `result`), if it completed.
    pub value: Option<serde_json::Value>,
    /// How many host tool calls succeeded.
    pub tool_calls: usize,
    /// Captured stdout of the guest (truncated to the output cap).
    pub stdout: String,
    /// Captured stderr of the guest (truncated to the output cap).
    pub stderr: String,
    /// Whether the run hit the wall-clock timeout.
    pub timed_out: bool,
    /// Whether the guest process exited successfully.
    pub exit_ok: bool,
}

impl IsolatedResult {
    /// The result of a run that hit the wall-clock timeout: no value, no tool
    /// calls, and `"guest run timed out"` on stderr.
    pub fn timed_out() -> (r: Self)
        ensures
            r.value is None,
            r.tool_calls == 0,
            r.stdout@ == Seq::<char>::empty(),
            r.stderr@ == "guest run timed out"@,
            r.timed_out,
            !r.exit_ok,
    {
        IsolatedResult {
            value: None,
            tool_calls: 0,
            stdout: String::new(),
            stderr: "guest run timed out".to_owned(),
            timed_out: true,
            exit_ok: false,
        }
    }

    /// The result of a run that finished: the broker session's value and call
    /// count, and the captured output truncated to `max_output_bytes`.
    pub fn completed(session: BrokerSession, stdout: String, stderr: String, exit_ok: bool, max_output_bytes: usize) -> (r: Self)
        ensures
            r.value == session.result,
            r.tool_calls == session.tool_calls,
            !r.timed_out,
            r.exit_ok == exit_ok,
            is_truncation(stdout@, max_output_bytes, r.stdout@),
            is_truncation(stderr@, max_output_bytes, r.stderr@),
            vstd::utf8::encode_utf8(r.stdout@).len() <= max_output_bytes,
            vstd::utf8::encode_utf8(r.stderr@).len() <= max_output_bytes,
    {
        let out = truncate_utf8(stdout, max_output_bytes);
        let err = truncate_utf8(stderr, max_output_bytes);
        IsolatedResult {
            value: session.result,
            tool_calls: session.tool_calls,
            stdout: out,
            stderr: err,
            timed_out: false,
            exit_ok,
        }
    }
}

/// Runs code inside a sandbox backend `B` with tool calls brokered to `I`.
pub struct IsolatedRunner<B, I> {
    backend: B,
    invoker: I,
    namespace: String,
    allowed_tools: Option<Vec<String>>,
    python: String,
    limits: IsolationLimits,
    allow_no_isolation: bool,
}

impl<B: SandboxBackend, I> IsolatedRunner<B, I> {
    /// The namespace brokered tools are pinned to.
    pub closed spec fn spec_namespace(&self) -> Seq<char> {
        self.namespace@
    }

    /// The tools the guest is restricted to (`None` = all).
    pub closed spec fn spec_allowed(&self) -> Option<Seq<Seq<char>>> {
        match self.allowed_tools {
            Some(v) => Some(strings_view(v@)),
            None => None,
        }
    }

    /// The guest interpreter.
    pub closed spec fn spec_python(&self) -> Seq<char> {
        self.python@
    }

    /// The resource ceilings.
    pub closed spec fn spec_limits(&self) -> IsolationLimits {
        self.limits
    }

    /// The sandbox backend.
    pub closed spec fn spec_backend(&self) -> B {
        self.backend
    }

    /// The invoker host tool calls go to.
    pub closed spec fn spec_invoker(&self) -> I {
        self.invoker
    }

    /// Whether a backend that provides no isolation may run the guest.
    pub closed spec fn spec_allow_no_isolation(&self) -> bool {
        self.allow_no_isolation
    }

    /// The interpreter a run uses: the backend's pinned one, else the runner's.
    pub open spec fn run_python(&self) -> Seq<char> {
        match self.spec_backend().pinned_python() {
            Some(p) => p,
            None => self.spec_python(),
        }
    }

    /// A runner over `backend`, brokering tool calls to `invoker`: namespace
    /// `"default"`, no tool restriction, default limits, and a backend that
    /// provides no isolation refused. The interpreter is [`python_exe`]'s choice.
    pub fn new(backend: B, invoker: I) -> (r: Self)
        ensures
            r.spec_namespace() == "default"@,
            r.spec_allowed() is None,
            python_candidates().contains(r.spec_python()) || r.spec_python() == "python3"@,
            exists|f: Seq<bool>|
                f.len() == 3 && python_probe("/usr/bin/python3", f[0]) && python_probe(
                    "/opt/homebrew/bin/python3",
                    f[1],
                ) && python_probe("/usr/local/bin/python3", f[2]) && r.spec_python() == #[trigger] python_choice(f),
            r.spec_limits() == IsolationLimits::default_spec(),
            r.spec_backend() == backend,
            r.spec_invoker() == invoker,
            !r.spec_allow_no_isolation(),
    {
        IsolatedRunner {
            backend,
            invoker,
            namespace: "default".to_owned(),
            allowed_tools: None,
            python: python_exe(),
            limits: IsolationLimits::default(),
            allow_no_isolation: false,
        }
    }

    /// Permit (or refuse) a backend that provides no isolation, such as
    /// [`crate::isolation::LocalBackend`]: for development only. (Builder.)
    pub fn allow_no_isolation(self, allow: bool) -> (r: Self)
        ensures
            r.spec_allow_no_isolation() == allow,
            r.spec_namespace() == self.spec_namespace(),
            r.spec_allowed() == self.spec_allowed(),
            r.spec_python() == self.spec_python(),
            r.spec_limits() == self.spec_limits(),
            r.spec_backend() == self.spec_backend(),
    {
        IsolatedRunner { allow_no_isolation: allow, ..self }
    }

    /// Whether a run may start: the backend confines the guest, or running
    /// without isolation was explicitly allowed.
    pub fn may_run(&self) -> (b: bool)
        ensures
            b == (self.spec_backend().isolates() || self.spec_allow_no_isolation()),
    {
        self.backend.provides_isolation() || self.allow_no_isolation
    }

    /// Pin brokered tools to `namespace`. (Builder.)
    pub fn namespace(self, namespace: &str) -> (r: Self)
        ensures
            r.spec_namespace() == namespace@,
            r.spec_allowed() == self.spec_allowed(),
            r.spec_python() == self.spec_python(),
            r.spec_limits() == self.spec_limits(),
            r.spec_backend() == self.spec_backend(),
            r.spec_allow_no_isolation() == self.spec_allow_no_isolation(),
    {
        IsolatedRunner { namespace: namespace.to_owned(), ..self }
    }

    /// Restrict the guest to these tool names (also what it is told it can call). (Builder.)
    pub fn allowed_tools(self, tools: Vec<String>) -> (r: Self)
        ensures
            r.spec_allowed() == Some(strings_view(tools@)),
            r.spec_namespace() == self.spec_namespace(),
            r.spec_python() == self.spec_python(),
            r.spec_limits() == self.spec_limits(),
            r.spec_backend() == self.spec_backend(),
            r.spec_allow_no_isolation() == self.spec_allow_no_isolation(),
    {
        IsolatedRunner { allowed_tools: Some(tools), ..self }
    }

    /// Use these resource ceilings. (Builder.)
    pub fn limits(self, limits: IsolationLimits) -> (r: Self)
        ensures
            r.spec_limits() == limits,
            r.spec_allowed() == self.spec_allowed(),
            r.spec_namespace() == self.spec_namespace(),
            r.spec_python() == self.spec_python(),
            r.spec_backend() == self.spec_backend(),
            r.spec_allow_no_isolation() == self.spec_allow_no_isolation(),
    {
        IsolatedRunner { limits, ..self }
    }

    /// Whether the backend can run on a host with these facts.
    pub fn is_available(&self, host: &HostFacts) -> (b: bool)
        ensures
            b == self.spec_backend().available_on(*host),
    {
        self.backend.is_available(host)
    }

    /// The invoker host tool calls go to.
    pub fn invoker(&self) -> (i: &I)
        ensures
            *i == self.spec_invoker(),
    {
        &self.invoker
    }

    /// The sandbox backend.
    pub fn backend(&self) -> (b: &B)
        ensures
            *b == self.spec_backend(),
    {
        &self.backend
    }

    /// The resource ceilings.
    pub fn get_limits(&self) -> (l: IsolationLimits)
        ensures
            l == self.spec_limits(),
    {
        self.limits
    }

    /// The tool names written into the guest's job: the allowlist's distinct
    /// names, or none.
    pub fn job_tools(&self) -> (v: Vec<String>)
        ensures
            self.spec_allowed() matches Some(a) ==> strings_view(v@).no_duplicates() && forall|s: Seq<char>|
                #[trigger] strings_view(v@).contains(s) <==> a.contains(s),
            self.spec_allowed() is None ==> v@.len() == 0,
    {
        match &self.allowed_tools {
            Some(t) => dedup_strings(t),
            None => Vec::new(),
        }
    }

    /// The broker policy for a run authenticated by `token`: this runner's
    /// namespace and allowlist, and its tool-call ceiling.
    pub fn broker_config(&self, token: String) -> (c: BrokerConfig)
        ensures
            c.token@ == token@,
            c.namespace@ == self.spec_namespace(),
            c.max_tool_calls == self.spec_limits().max_tool_calls,
            match c.allowed_tools {
                Some(v) => self.spec_allowed() == Some(strings_view(v@)),
                None => self.spec_allowed() is None,
            },
    {
        let allowed_tools = match &self.allowed_tools {
            Some(t) => Some(clone_strings(t)),
            None => None,
        };
        BrokerConfig {
            token,
            namespace: self.namespace.clone(),
            allowed_tools,
            max_tool_calls: self.limits.max_tool_calls,
        }
    }

    /// The full command line of a run: the wrapper the backend gives for
    /// `ctx`, then
    /// `<python> <guest_path> <job_path>`, where the interpreter is the one
    /// the backend pins, else the runner's.
    pub fn launch_argv(&self, ctx: &LaunchCtx, guest_path: &str, job_path: &str) -> (argv: Vec<String>)
        ensures
            exists|w: Seq<Seq<char>>|
                #![trigger self.spec_backend().wraps(*ctx, w)]
                self.spec_backend().wraps(*ctx, w) && strings_view(argv@) == w + seq![
                    self.run_python(),
                    guest_path@,
                    job_path@,
                ],
    {
        let mut argv = self.backend.wrapper_argv(ctx);
        let ghost w = strings_view(argv@);
        let python = match self.backend.python_exe() {
            Some(p) => p,
            None => self.python.clone(),
        };
        push_string(&mut argv, python);
        push_str(&mut argv, guest_path);
        push_str(&mut argv, job_path);
        assert(strings_view(argv@) =~= w + seq![self.run_python(), guest_path@, job_path@]);
        argv
    }
}

} // verus!

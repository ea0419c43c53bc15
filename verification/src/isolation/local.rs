//! Local backend: runs the guest directly, with no isolation.
//!
//! For development and testing only. A runner refuses it unless told that no
//! isolation is acceptable, so it can't run untrusted code by accident.

use vstd::prelude::*;

use crate::isolation::backend::{HostFacts, LaunchCtx, SandboxBackend};

verus! {

/// A no-op backend: the guest runs as an ordinary child process.
#[derive(Debug, Default)]
pub struct LocalBackend;

impl SandboxBackend for LocalBackend {
    /// No wrapper: the guest command runs as given.
    open spec fn wraps(&self, ctx: LaunchCtx, argv: Seq<Seq<char>>) -> bool {
        argv.len() == 0
    }

    /// Runs anywhere.
    open spec fn available_on(&self, host: HostFacts) -> bool {
        true
    }

    /// The guest runs unconfined.
    open spec fn isolates(&self) -> bool {
        false
    }

    /// No interpreter is pinned: the runner's own is used.
    open spec fn pinned_python(&self) -> Option<Seq<char>> {
        None
    }

    fn python_exe(&self) -> (p: Option<String>) {
        None
    }

    fn name(&self) -> (n: &'static str)
        ensures
            n@ == "local"@,
    {
        "local"
    }

    fn provides_isolation(&self) -> (b: bool)
        ensures
            !b,
    {
        false
    }

    fn is_available(&self, host: &HostFacts) -> (b: bool)
        ensures
            b,
    {
        true
    }

    fn wrapper_argv(&self, ctx: &LaunchCtx) -> (v: Vec<String>)
        ensures
            v@.len() == 0,
    {
        Vec::new()
    }
}

} // verus!

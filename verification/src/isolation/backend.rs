//! How to launch a guest command under OS isolation.

use vstd::prelude::*;

use crate::config::str_eq;

verus! {

/// Per-run paths handed to a backend when it builds its launch wrapper.
#[derive(Debug, Clone)]
pub struct LaunchCtx {
    /// The guest's staging directory (a resolved, absolute path).
    pub workdir: String,
    /// The broker's socket path (the only channel the guest gets to the host).
    pub endpoint: String,
}

/// What `std::path::Path::parent` returns for a path with these characters.
pub uninterp spec fn path_parent_spec(p: Seq<char>) -> Option<Seq<char>>;

/// The parent directory of `p` (`std::path::Path::parent`), as text. The
/// result is named [`path_parent_spec`]: it depends on the path's characters
/// alone.
#[verifier::external_body]
pub(crate) fn path_parent(p: &str) -> (r: Option<String>)
    ensures
        match r {
            Some(s) => path_parent_spec(p@) == Some(s@),
            None => path_parent_spec(p@) is None,
        },
{
    std::path::Path::new(p).parent().map(|d| d.to_string_lossy().into_owned())
}

/// The directory holding the broker socket: the endpoint's parent, or `/tmp`.
pub open spec fn socket_dir_spec(ctx: LaunchCtx) -> Seq<char> {
    match path_parent_spec(ctx.endpoint@) {
        Some(d) => d,
        None => "/tmp"@,
    }
}

impl LaunchCtx {
    /// The directory holding the broker socket: the endpoint's parent, or `/tmp`.
    pub fn socket_dir(&self) -> (d: String)
        ensures
            d@ == socket_dir_spec(*self),
    {
        match path_parent(self.endpoint.as_str()) {
            Some(d) => d,
            None => "/tmp".to_owned(),
        }
    }
}

/// Facts about the host a backend's availability depends on, gathered by the
/// caller: the target OS (`std::env::consts::OS`), the executables found on
/// `PATH`, and the absolute paths known to exist.
#[derive(Debug, Clone)]
pub struct HostFacts {
    /// The target operating system, e.g. `"linux"` or `"macos"`.
    pub os: String,
    /// Executable names found on `PATH`.
    pub on_path: Vec<String>,
    /// Absolute paths that exist.
    pub existing: Vec<String>,
}

/// Some entry of `v` has characters `s`.
pub open spec fn has_string(v: Seq<String>, s: Seq<char>) -> bool {
    exists|i: int| 0 <= i < v.len() && #[trigger] v[i]@ == s
}

/// Whether `v` holds `s`.
pub fn holds_string(v: &Vec<String>, s: &str) -> (b: bool)
    ensures
        b == has_string(v@, s@),
{
    let mut i: usize = 0;
    while i < v.len()
        invariant
            i <= v@.len(),
            forall|k: int| 0 <= k < i ==> #[trigger] v@[k]@ != s@,
        decreases v@.len() - i,
    {
        if str_eq(v[i].as_str(), s) {
            return true;
        }
        i += 1;
    }
    false
}

/// How to launch a command under OS isolation.
pub trait SandboxBackend {
    /// Short identifier, e.g. `"seatbelt"`.
    fn name(&self) -> &'static str;

    /// Whether this backend confines the guest.
    spec fn isolates(&self) -> bool;

    /// Whether this backend actually confines the guest (vs. a no-op local run).
    fn provides_isolation(&self) -> (b: bool)
        ensures
            b == self.isolates(),
    ;

    /// Whether this backend can run on a host with these facts.
    spec fn available_on(&self, host: HostFacts) -> bool;

    /// Whether this backend can run on a host with these facts.
    fn is_available(&self, host: &HostFacts) -> (b: bool)
        ensures
            b == self.available_on(*host),
    ;

    /// Whether `argv` is a wrapper this backend may give for a run in `ctx`
    /// (a backend whose wrapper depends on the host admits several).
    spec fn wraps(&self, ctx: LaunchCtx, argv: Seq<Seq<char>>) -> bool;

    /// The wrapper argv prepended to the guest command. Empty for a no-op backend.
    fn wrapper_argv(&self, ctx: &LaunchCtx) -> (v: Vec<String>)
        ensures
            self.wraps(*ctx, crate::config::strings_view(v@)),
    ;

    /// Extra environment variables to set for the guest (none by default).
    fn extra_env(&self) -> (v: Vec<(String, String)>)
        default_ensures
            v@.len() == 0,
    {
        Vec::new()
    }

    /// The staging directory as the guest sees it (the host path by default).
    fn workdir_guest(&self, ctx: &LaunchCtx) -> (p: String)
        ensures
            p@ == ctx.workdir@,
    {
        ctx.workdir.clone()
    }

    /// The broker endpoint as the guest sees it (the host path by default).
    fn endpoint_guest(&self, ctx: &LaunchCtx) -> (p: String)
        ensures
            p@ == ctx.endpoint@,
    {
        ctx.endpoint.clone()
    }

    /// The interpreter this backend pins for the guest, if any.
    spec fn pinned_python(&self) -> Option<Seq<char>>;

    /// The interpreter the guest runs under, if the backend pins one.
    fn python_exe(&self) -> (p: Option<String>)
        ensures
            crate::text::opt_view(p) == self.pinned_python(),
    ;
}

/// The single pair `("PYTHONDONTWRITEBYTECODE", "1")`, which keeps the guest
/// from writing `.pyc` files next to read-only modules.
pub fn no_bytecode_env() -> (v: Vec<(String, String)>)
    ensures
        v@.len() == 1,
        v@[0].0@ == "PYTHONDONTWRITEBYTECODE"@,
        v@[0].1@ == "1"@,
{
    vec![("PYTHONDONTWRITEBYTECODE".to_owned(), "1".to_owned())]
}

} // verus!

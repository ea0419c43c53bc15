//! Linux bubblewrap backend: runs the guest in a namespace sandbox via `bwrap`.
//!
//! The guest gets a read-only view of the system and interpreter, a private
//! `/tmp`, fresh `/proc` and `/dev`, no network (unless allowed), the staging
//! directory read-only, and the broker socket directory writable. Paths are
//! bound at their host locations, so guest paths match host paths.

use vstd::prelude::*;

use crate::config::strings_view;
use crate::isolation::backend::{
    holds_string, no_bytecode_env, socket_dir_spec, HostFacts, LaunchCtx, SandboxBackend, has_string,
};

verus! {

/// System roots the interpreter needs, bind-mounted read-only when present.
pub open spec fn system_roots_spec() -> Seq<Seq<char>> {
    seq!["/usr"@, "/bin"@, "/sbin"@, "/lib"@, "/lib64"@, "/etc"@]
}

/// The system roots, as text.
fn system_roots() -> (v: Vec<&'static str>)
    ensures
        v@.len() == 6,
        forall|i: int| 0 <= i < 6 ==> #[trigger] v@[i]@ == system_roots_spec()[i],
{
    vec!["/usr", "/bin", "/sbin", "/lib", "/lib64", "/etc"]
}

/// Whether a filesystem path exists (`std::path::Path::exists`). The answer
/// depends on the disk, so nothing is promised of it.
#[verifier::external_body]
fn path_exists(p: &str) -> bool {
    std::path::Path::new(p).exists()
}

/// `present` is an answer that probing `path` on disk can give.
pub closed spec fn root_probe(path: &str, present: bool) -> bool {
    call_ensures(path_exists, (path,), present)
}

/// `probe` applied to `path`.
pub(crate) fn probe_path<F: Fn(&str) -> bool>(probe: F, path: &str) -> (b: bool)
    requires
        call_requires(probe, (path,)),
    ensures
        call_ensures(probe, (path,), b),
{
    probe(path)
}

/// `--ro-bind <r> <r>` for each root whose `present` flag is set, in order.
pub open spec fn root_binds(roots: Seq<Seq<char>>, present: Seq<bool>) -> Seq<Seq<char>>
    decreases roots.len(),
{
    if roots.len() == 0 || present.len() < roots.len() {
        seq![]
    } else {
        let n = roots.len() - 1;
        root_binds(roots.drop_last(), present.take(n)) + if present[n] {
            seq!["--ro-bind"@, roots[n], roots[n]]
        } else {
            seq![]
        }
    }
}

/// The namespace flags every run gets, then `--unshare-net` unless the
/// network is allowed.
pub open spec fn bwrap_head(allow_network: bool) -> Seq<Seq<char>> {
    seq![
        "bwrap"@,
        "--die-with-parent"@,
        "--new-session"@,
        "--unshare-user"@,
        "--unshare-pid"@,
        "--unshare-ipc"@,
    ] + if allow_network {
        seq![]
    } else {
        seq!["--unshare-net"@]
    }
}

/// The mounts after the system roots, then the end of the wrapper.
pub open spec fn bwrap_tail(workdir: Seq<char>, socket_dir: Seq<char>) -> Seq<Seq<char>> {
    seq![
        "--proc"@,
        "/proc"@,
        "--dev"@,
        "/dev"@,
        "--tmpfs"@,
        "/tmp"@,
        "--ro-bind"@,
        workdir,
        workdir,
        "--bind"@,
        socket_dir,
        socket_dir,
        "--chdir"@,
        "/"@,
        "--"@,
    ]
}

/// The full wrapper argv, given which system roots are present.
pub open spec fn bwrap_argv(allow_network: bool, present: Seq<bool>, ctx: LaunchCtx) -> Seq<Seq<char>> {
    bwrap_head(allow_network) + root_binds(system_roots_spec(), present) + bwrap_tail(
        ctx.workdir@,
        socket_dir_spec(ctx),
    )
}

/// Linux namespace-isolated guest via `bwrap`.
#[derive(Debug, Default)]
pub struct BubblewrapBackend {
    allow_network: bool,
}

impl BubblewrapBackend {
    /// Whether the network namespace is shared with the host.
    pub closed spec fn spec_allow_network(&self) -> bool {
        self.allow_network
    }

    /// A backend, optionally leaving the network namespace shared.
    pub fn new(allow_network: bool) -> (b: Self)
        ensures
            b.spec_allow_network() == allow_network,
    {
        BubblewrapBackend { allow_network }
    }
}

/// Push `s` onto `v`.
pub fn push_string(v: &mut Vec<String>, s: String)
    ensures
        strings_view(final(v)@) == strings_view(old(v)@).push(s@),
{
    let ghost sv = s@;
    v.push(s);
    assert(strings_view(v@) =~= strings_view(old(v)@).push(sv));
}

/// Push a copy of `s` onto `argv`.
pub fn push_str(argv: &mut Vec<String>, s: &str)
    ensures
        strings_view(final(argv)@) == strings_view(old(argv)@).push(s@),
{
    argv.push(s.to_owned());
    assert(strings_view(argv@) =~= strings_view(old(argv)@).push(s@));
}

impl SandboxBackend for BubblewrapBackend {
    /// The bubblewrap command line for the system roots that probing the
    /// disk found present, each flag the probe's answer for that root.
    open spec fn wraps(&self, ctx: LaunchCtx, argv: Seq<Seq<char>>) -> bool {
        exists|present: Seq<bool>|
            present.len() == 6 && root_probe("/usr", present[0]) && root_probe("/bin", present[1]) && root_probe(
                "/sbin",
                present[2],
            ) && root_probe("/lib", present[3]) && root_probe("/lib64", present[4]) && root_probe(
                "/etc",
                present[5],
            ) && argv == #[trigger] bwrap_argv(self.spec_allow_network(), present, ctx)
    }

    /// On Linux, with `bwrap` on `PATH`.
    open spec fn available_on(&self, host: HostFacts) -> bool {
        host.os@ == "linux"@ && has_string(host.on_path@, "bwrap"@)
    }

    /// The guest runs in fresh namespaces.
    open spec fn isolates(&self) -> bool {
        true
    }

    /// No interpreter is pinned: the runner's own is used.
    open spec fn pinned_python(&self) -> Option<Seq<char>> {
        None
    }

    fn python_exe(&self) -> (p: Option<String>) {
        None
    }

    fn name(&self) -> (n: &'static str)
        ensures
            n@ == "bubblewrap"@,
    {
        "bubblewrap"
    }

    fn provides_isolation(&self) -> (b: bool)
        ensures
            b,
    {
        true
    }

    fn is_available(&self, host: &HostFacts) -> (b: bool)
        ensures
            b == (host.os@ == "linux"@ && has_string(host.on_path@, "bwrap"@)),
    {
        crate::config::str_eq(host.os.as_str(), "linux") && holds_string(&host.on_path, "bwrap")
    }

    fn extra_env(&self) -> (v: Vec<(String, String)>)
        ensures
            v@.len() == 1,
            v@[0].0@ == "PYTHONDONTWRITEBYTECODE"@,
            v@[0].1@ == "1"@,
    {
        no_bytecode_env()
    }

    fn wrapper_argv(&self, ctx: &LaunchCtx) -> (argv: Vec<String>)
        ensures
            exists|present: Seq<bool>|
                present.len() == 6 && root_probe("/usr", present[0]) && root_probe("/bin", present[1]) && root_probe(
                    "/sbin",
                    present[2],
                ) && root_probe("/lib", present[3]) && root_probe("/lib64", present[4]) && root_probe(
                    "/etc",
                    present[5],
                ) && strings_view(argv@) == #[trigger] bwrap_argv(self.spec_allow_network(), present, *ctx),
    {
        let present = [
            probe_path(path_exists, "/usr"),
            probe_path(path_exists, "/bin"),
            probe_path(path_exists, "/sbin"),
            probe_path(path_exists, "/lib"),
            probe_path(path_exists, "/lib64"),
            probe_path(path_exists, "/etc"),
        ];
        let argv = bwrap_argv_for(self.allow_network, &present, ctx);
        assert(present@.len() == 6);
        assert(strings_view(argv@) == bwrap_argv(self.spec_allow_network(), present@, *ctx));
        argv
    }
}

/// The bubblewrap wrapper argv, given whether each system root of
/// [`system_roots_spec`] is present (in that order).
pub fn bwrap_argv_for(allow_network: bool, present: &[bool], ctx: &LaunchCtx) -> (argv: Vec<String>)
    requires
        present@.len() == 6,
    ensures
        strings_view(argv@) == bwrap_argv(allow_network, present@, *ctx),
{
    let mut argv: Vec<String> = Vec::new();
    push_str(&mut argv, "bwrap");
    push_str(&mut argv, "--die-with-parent");
    push_str(&mut argv, "--new-session");
    push_str(&mut argv, "--unshare-user");
    push_str(&mut argv, "--unshare-pid");
    push_str(&mut argv, "--unshare-ipc");
    if !allow_network {
        push_str(&mut argv, "--unshare-net");
    }
    assert(strings_view(argv@) =~= bwrap_head(allow_network));
    let roots = system_roots();
    let mut i: usize = 0;
    while i < roots.len()
        invariant
            i <= 6,
            roots@.len() == 6,
            present@.len() == 6,
            forall|k: int| 0 <= k < 6 ==> #[trigger] roots@[k]@ == system_roots_spec()[k],
            strings_view(argv@) == bwrap_head(allow_network) + root_binds(
                system_roots_spec().take(i as int),
                present@.take(i as int),
            ),
        decreases 6 - i,
    {
        let root = roots[i];
        if present[i] {
            push_str(&mut argv, "--ro-bind");
            push_str(&mut argv, root);
            push_str(&mut argv, root);
        }
        proof {
            let r = system_roots_spec().take(i + 1);
            let np = present@.take(i + 1);
            assert(r.drop_last() =~= system_roots_spec().take(i as int));
            assert(np.take(i as int) =~= present@.take(i as int));
            assert(r[i as int] == root@);
            assert(np[i as int] == present@[i as int]);
            assert(strings_view(argv@) =~= bwrap_head(allow_network) + root_binds(r, np));
        }
        i += 1;
    }
    assert(system_roots_spec().take(6) =~= system_roots_spec());
    assert(present@.take(6) =~= present@);
    let ghost before_tail = strings_view(argv@);
    push_str(&mut argv, "--proc");
    push_str(&mut argv, "/proc");
    push_str(&mut argv, "--dev");
    push_str(&mut argv, "/dev");
    push_str(&mut argv, "--tmpfs");
    push_str(&mut argv, "/tmp");
    push_str(&mut argv, "--ro-bind");
    push_str(&mut argv, ctx.workdir.as_str());
    push_str(&mut argv, ctx.workdir.as_str());
    let socket_dir = ctx.socket_dir();
    push_str(&mut argv, "--bind");
    push_str(&mut argv, socket_dir.as_str());
    push_str(&mut argv, socket_dir.as_str());
    push_str(&mut argv, "--chdir");
    push_str(&mut argv, "/");
    push_str(&mut argv, "--");
    assert(strings_view(argv@) =~= before_tail + bwrap_tail(ctx.workdir@, socket_dir_spec(*ctx)));
    argv
}

/// Allowing the network drops exactly the `--unshare-net` flag: for the same
/// present roots and context, the wrapper without network is the wrapper with
/// network plus `--unshare-net` at position 6; the first six flags of the
/// wrapper with network hold no `--unshare-net`, and neither does any of it
/// unless the work directory or the socket directory is spelled that way.
pub proof fn lemma_allow_network_drops_unshare_net(present: Seq<bool>, ctx: LaunchCtx)
    ensures
        ({
            let with_net = bwrap_argv(true, present, ctx);
            &&& bwrap_argv(false, present, ctx) == with_net.take(6) + seq!["--unshare-net"@] + with_net.skip(6)
            &&& !with_net.take(6).contains("--unshare-net"@)
            &&& ctx.workdir@ != "--unshare-net"@ && socket_dir_spec(ctx) != "--unshare-net"@ ==> !with_net.contains(
                "--unshare-net"@,
            )
        }),
{
    let with_net = bwrap_argv(true, present, ctx);
    let rest = root_binds(system_roots_spec(), present) + bwrap_tail(ctx.workdir@, socket_dir_spec(ctx));
    assert(bwrap_head(true).len() == 6);
    assert(with_net =~= bwrap_head(true) + rest);
    assert(with_net.take(6) =~= bwrap_head(true));
    assert(with_net.skip(6) =~= rest);
    assert(bwrap_argv(false, present, ctx) =~= bwrap_head(true) + seq!["--unshare-net"@] + rest);
    reveal_strlit("--unshare-net");
    reveal_strlit("bwrap");
    reveal_strlit("--die-with-parent");
    reveal_strlit("--new-session");
    reveal_strlit("--unshare-user");
    reveal_strlit("--unshare-pid");
    reveal_strlit("--unshare-ipc");
    let u = "--unshare-net"@;
    let h = bwrap_head(true);
    assert(h[0].len() != u.len());
    assert(h[1].len() != u.len());
    assert(h[2][2] != u[2]);
    assert(h[3].len() != u.len());
    assert(h[4][10] != u[10]);
    assert(h[5][10] != u[10]);
    assert forall|k: int| 0 <= k < 6 implies #[trigger] h[k] != u by {
        if k == 0 {
        } else if k == 1 {
        } else if k == 2 {
        } else if k == 3 {
        } else if k == 4 {
        } else {
        }
    }
    if ctx.workdir@ != u && socket_dir_spec(ctx) != u {
        let rb = root_binds(system_roots_spec(), present);
        let tl = bwrap_tail(ctx.workdir@, socket_dir_spec(ctx));
        lemma_root_binds_elems(system_roots_spec(), present);
        reveal_strlit("--ro-bind");
        reveal_strlit("/usr");
        reveal_strlit("/bin");
        reveal_strlit("/sbin");
        reveal_strlit("/lib");
        reveal_strlit("/lib64");
        reveal_strlit("/etc");
        reveal_strlit("--proc");
        reveal_strlit("/proc");
        reveal_strlit("--dev");
        reveal_strlit("/dev");
        reveal_strlit("--tmpfs");
        reveal_strlit("/tmp");
        reveal_strlit("--bind");
        reveal_strlit("--chdir");
        reveal_strlit("/");
        reveal_strlit("--");
        let roots = system_roots_spec();
        assert forall|k: int| 0 <= k < roots.len() implies #[trigger] roots[k].len() != u.len() by {
            if k == 0 {
            } else if k == 1 {
            } else if k == 2 {
            } else if k == 3 {
            } else if k == 4 {
            } else {
            }
        }
        assert forall|k: int| 0 <= k < rb.len() implies #[trigger] rb[k] != u by {
            if rb[k] != "--ro-bind"@ {
                let j = choose|j: int| 0 <= j < roots.len() && roots[j] == rb[k];
                assert(roots[j].len() != u.len());
            }
        }
        assert forall|k: int| 0 <= k < tl.len() implies #[trigger] tl[k] != u by {
            if k == 7 || k == 8 || k == 10 || k == 11 {
            } else {
                assert(tl[k].len() != u.len());
            }
        }
        assert forall|k: int| 0 <= k < with_net.len() implies #[trigger] with_net[k] != u by {
            assert(with_net =~= h + rb + tl);
            if k < 6 {
                assert(with_net[k] == h[k]);
            } else if k < 6 + rb.len() {
                assert(with_net[k] == rb[k - 6]);
            } else {
                assert(with_net[k] == tl[k - 6 - rb.len()]);
            }
        }
    }
}

/// Each word of the root binds is `--ro-bind` or one of the roots.
proof fn lemma_root_binds_elems(roots: Seq<Seq<char>>, present: Seq<bool>)
    ensures
        forall|i: int|
            0 <= i < root_binds(roots, present).len() ==> #[trigger] root_binds(roots, present)[i] == "--ro-bind"@
                || roots.contains(root_binds(roots, present)[i]),
    decreases roots.len(),
{
    if roots.len() > 0 && present.len() >= roots.len() {
        let n = roots.len() - 1;
        lemma_root_binds_elems(roots.drop_last(), present.take(n));
        let prev = root_binds(roots.drop_last(), present.take(n));
        let all = root_binds(roots, present);
        assert forall|i: int| 0 <= i < all.len() implies #[trigger] all[i] == "--ro-bind"@ || roots.contains(all[i]) by {
            if i < prev.len() {
                assert(all[i] == prev[i]);
                if prev[i] != "--ro-bind"@ {
                    let j = choose|j: int| 0 <= j < roots.drop_last().len() && roots.drop_last()[j] == prev[i];
                    assert(roots[j] == prev[i]);
                }
            } else {
                assert(all[i] == "--ro-bind"@ || all[i] == roots[n]);
            }
        }
    }
}

/// `argv` holds `--ro-bind <r> <r>` starting at position `k`.
pub open spec fn ro_bind_at(argv: Seq<Seq<char>>, k: int, r: Seq<char>) -> bool {
    0 <= k && k + 2 < argv.len() && argv[k] == "--ro-bind"@ && argv[k + 1] == r && argv[k + 2] == r
}

/// The root binds hold `--ro-bind` and present roots only, and each present
/// root as a whole `--ro-bind <root> <root>` triple.
proof fn lemma_root_binds_shape(roots: Seq<Seq<char>>, present: Seq<bool>)
    requires
        present.len() >= roots.len(),
    ensures
        forall|k: int|
            0 <= k < root_binds(roots, present).len() ==> #[trigger] root_binds(roots, present)[k] == "--ro-bind"@
                || exists|j: int| 0 <= j < roots.len() && present[j] && root_binds(roots, present)[k] == roots[j],
        forall|j: int|
            0 <= j < roots.len() && #[trigger] present[j] ==> exists|k: int|
                #[trigger] ro_bind_at(root_binds(roots, present), k, roots[j]),
    decreases roots.len(),
{
    if roots.len() > 0 {
        let n = roots.len() - 1;
        let init = roots.drop_last();
        let pinit = present.take(n);
        lemma_root_binds_shape(init, pinit);
        let prev = root_binds(init, pinit);
        let all = root_binds(roots, present);
        let last: Seq<Seq<char>> = if present[n] {
            seq!["--ro-bind"@, roots[n], roots[n]]
        } else {
            seq![]
        };
        assert(all == prev + last);
        assert forall|k: int| 0 <= k < all.len() implies #[trigger] all[k] == "--ro-bind"@ || exists|j: int|
            0 <= j < roots.len() && present[j] && all[k] == roots[j] by {
            if k < prev.len() {
                assert(all[k] == prev[k]);
                if prev[k] != "--ro-bind"@ {
                    let j = choose|j: int| 0 <= j < init.len() && pinit[j] && prev[k] == init[j];
                    assert(roots[j] == init[j] && present[j] == pinit[j]);
                }
            } else {
                assert(all[k] == last[k - prev.len()]);
                if all[k] != "--ro-bind"@ {
                    assert(present[n] && all[k] == roots[n]);
                }
            }
        }
        assert forall|j: int| 0 <= j < roots.len() && #[trigger] present[j] implies exists|k: int|
            #[trigger] ro_bind_at(all, k, roots[j]) by {
            if j < n {
                assert(pinit[j] == present[j] && init[j] == roots[j]);
                let k = choose|k: int| #[trigger] ro_bind_at(prev, k, init[j]);
                assert(all[k] == prev[k] && all[k + 1] == prev[k + 1] && all[k + 2] == prev[k + 2]);
                assert(ro_bind_at(all, k, roots[j]));
            } else {
                let k = prev.len() as int;
                assert(all[k] == last[0] && all[k + 1] == last[1] && all[k + 2] == last[2]);
                assert(ro_bind_at(all, k, roots[j]));
            }
        }
    } else {
        assert(root_binds(roots, present) =~= Seq::<Seq<char>>::empty());
    }
}

/// A word that could be a system root: `/` then `u`, `b`, `s`, `l` or `e`.
spec fn root_like(x: Seq<char>) -> bool {
    x.len() >= 2 && x[0] == '/' && (x[1] == 'u' || x[1] == 'b' || x[1] == 's' || x[1] == 'l' || x[1] == 'e')
}

/// The bubblewrap wrapper binds read-only exactly the present system roots:
/// for every presence vector and launch context whose staging and socket
/// directories are not themselves system roots, each present root occurs as
/// `--ro-bind <root> <root>`, and an absent root does not occur at all.
pub proof fn lemma_binds_exactly_present_roots(allow_network: bool, present: Seq<bool>, ctx: LaunchCtx)
    requires
        present.len() == 6,
        !system_roots_spec().contains(ctx.workdir@),
        !system_roots_spec().contains(socket_dir_spec(ctx)),
    ensures
        ({
            let a = bwrap_argv(allow_network, present, ctx);
            let roots = system_roots_spec();
            &&& forall|i: int| 0 <= i < 6 && #[trigger] present[i] ==> exists|k: int| #[trigger] ro_bind_at(a, k, roots[i])
            &&& forall|i: int| 0 <= i < 6 && !(#[trigger] present[i]) ==> !a.contains(roots[i])
        }),
{
    let roots = system_roots_spec();
    let h = bwrap_head(allow_network);
    let rb = root_binds(roots, present);
    let tl = bwrap_tail(ctx.workdir@, socket_dir_spec(ctx));
    let a = bwrap_argv(allow_network, present, ctx);
    assert(a == h + rb + tl);
    lemma_root_binds_shape(roots, present);
    reveal_strlit("/usr");
    reveal_strlit("/bin");
    reveal_strlit("/sbin");
    reveal_strlit("/lib");
    reveal_strlit("/lib64");
    reveal_strlit("/etc");
    reveal_strlit("bwrap");
    reveal_strlit("--die-with-parent");
    reveal_strlit("--new-session");
    reveal_strlit("--unshare-user");
    reveal_strlit("--unshare-pid");
    reveal_strlit("--unshare-ipc");
    reveal_strlit("--unshare-net");
    reveal_strlit("--ro-bind");
    reveal_strlit("--proc");
    reveal_strlit("/proc");
    reveal_strlit("--dev");
    reveal_strlit("/dev");
    reveal_strlit("--tmpfs");
    reveal_strlit("/tmp");
    reveal_strlit("--bind");
    reveal_strlit("--chdir");
    reveal_strlit("/");
    reveal_strlit("--");
    assert forall|i: int| 0 <= i < 6 && #[trigger] present[i] implies exists|k: int| #[trigger] ro_bind_at(a, k, roots[i]) by {
        let k = choose|k: int| #[trigger] ro_bind_at(rb, k, roots[i]);
        let kk = h.len() + k;
        assert(a[kk] == rb[k] && a[kk + 1] == rb[k + 1] && a[kk + 2] == rb[k + 2]);
        assert(ro_bind_at(a, kk, roots[i]));
    }
    // Every root is root-like, and the roots differ pairwise.
    assert forall|j: int| 0 <= j < 6 implies root_like(#[trigger] roots[j]) by {
        if j == 0 {} else if j == 1 {} else if j == 2 {} else if j == 3 {} else if j == 4 {} else {}
    }
    assert forall|i: int, j: int| 0 <= i < 6 && 0 <= j < 6 && i != j implies #[trigger] roots[i] != #[trigger] roots[j] by {
        if roots[i] == roots[j] {
            assert(roots[i].len() == roots[j].len());
            assert(roots[i][1] == roots[j][1]);
            assert(roots[i][2] == roots[j][2]);
        }
    }
    assert forall|k: int| 0 <= k < h.len() implies !root_like(#[trigger] h[k]) by {
        if k == 0 {} else if k == 1 {} else if k == 2 {} else if k == 3 {} else if k == 4 {} else if k == 5 {} else {}
    }
    assert forall|k: int| 0 <= k < tl.len() && k != 7 && k != 8 && k != 10 && k != 11 implies !root_like(#[trigger] tl[k]) by {
        if k == 0 {} else if k == 1 {} else if k == 2 {} else if k == 3 {} else if k == 4 {} else if k == 5 {}
        else if k == 6 {} else if k == 9 {} else if k == 12 {} else if k == 13 {} else {}
    }
    assert(!root_like("--ro-bind"@));
    assert forall|i: int| 0 <= i < 6 && !(#[trigger] present[i]) implies !a.contains(roots[i]) by {
        if a.contains(roots[i]) {
            let k = choose|k: int| 0 <= k < a.len() && a[k] == roots[i];
            assert(root_like(roots[i]));
            if k < h.len() {
                assert(a[k] == h[k]);
            } else if k < h.len() + rb.len() {
                assert(a[k] == rb[k - h.len()]);
                if rb[k - h.len()] != "--ro-bind"@ {
                    let j = choose|j: int| 0 <= j < roots.len() && present[j] && rb[k - h.len()] == roots[j];
                    assert(j != i);
                }
            } else {
                let m = k - h.len() - rb.len();
                assert(a[k] == tl[m]);
                if m == 7 || m == 8 {
                    assert(roots.contains(ctx.workdir@));
                } else if m == 10 || m == 11 {
                    assert(roots.contains(socket_dir_spec(ctx)));
                }
            }
        }
    }
}

} // verus!

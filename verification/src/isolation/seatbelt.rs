//! macOS Seatbelt backend: runs the guest under `sandbox-exec`.
//!
//! The generated SBPL profile denies everything by default and then grants
//! only what a short guest run needs: no outbound network except the unix
//! broker socket, and no filesystem writes outside the staging, socket and
//! temporary directories. Reads are broad (the interpreter and dynamic loader
//! abort if a needed read is denied) except for a denylist of well-known
//! secret locations.

use vstd::prelude::*;
use vstd::string::*;

use crate::config::strings_view;
use crate::isolation::backend::{
    has_string, holds_string, no_bytecode_env, socket_dir_spec, HostFacts, LaunchCtx, SandboxBackend,
};
use crate::isolation::bubblewrap::{push_str, push_string};
use crate::text::{chars_of, opt_view, seq_contains, str_concat};

verus! {

/// Well-known secret locations denied to the guest by default.
pub open spec fn default_deny_read_spec() -> Seq<Seq<char>> {
    seq![
        "~/.ssh"@,
        "~/.aws"@,
        "~/.config/gcloud"@,
        "~/.kube"@,
        "~/.gnupg"@,
        "~/.docker"@,
        "~/.netrc"@,
        "~/.git-credentials"@,
        "~/Library/Keychains"@,
        "~/Library/Application Support/com.apple.TCC"@,
    ]
}

/// The default denied read paths (with `~` unexpanded).
pub fn default_deny_read_paths() -> (v: Vec<String>)
    ensures
        strings_view(v@) == default_deny_read_spec(),
{
    let mut v: Vec<String> = Vec::new();
    push_str(&mut v, "~/.ssh");
    push_str(&mut v, "~/.aws");
    push_str(&mut v, "~/.config/gcloud");
    push_str(&mut v, "~/.kube");
    push_str(&mut v, "~/.gnupg");
    push_str(&mut v, "~/.docker");
    push_str(&mut v, "~/.netrc");
    push_str(&mut v, "~/.git-credentials");
    push_str(&mut v, "~/Library/Keychains");
    push_str(&mut v, "~/Library/Application Support/com.apple.TCC");
    assert(strings_view(v@) =~= default_deny_read_spec());
    v
}

/// `path` with a leading `~` replaced by `home`, when a home directory is known.
pub open spec fn expand_home_spec(path: Seq<char>, home: Option<Seq<char>>) -> Seq<char> {
    if path.len() > 0 && path[0] == '~' && home is Some {
        home->0 + path.drop_first()
    } else {
        path
    }
}

/// Expand a leading `~` to `home`; leave other paths (or all, without a home) unchanged.
pub fn expand_home(path: &str, home: &Option<String>) -> (r: String)
    ensures
        r@ == expand_home_spec(path@, opt_view(*home)),
{
    let n = path.unicode_len();
    if n > 0 && path.get_char(0) == '~' {
        if let Some(h) = home {
            let rest = path.substring_char(1, n);
            assert(rest@ =~= path@.drop_first());
            return str_concat(h.as_str(), rest);
        }
    }
    path.to_owned()
}

/// Quote a path for an SBPL string literal: `\` becomes `\\` and `"` becomes `\"`.
pub open spec fn sbpl_quote(s: Seq<char>) -> Seq<char>
    decreases s.len(),
{
    if s.len() == 0 {
        seq![]
    } else {
        sbpl_quote(s.drop_last()) + if s.last() == '\\' {
            "\\\\"@
        } else if s.last() == '"' {
            "\\\""@
        } else {
            seq![s.last()]
        }
    }
}

/// Quote a path for an SBPL string literal.
pub fn q(path: &str) -> (r: String)
    ensures
        r@ == sbpl_quote(path@),
{
    let chars = chars_of(path);
    let mut out = String::new();
    let mut i: usize = 0;
    while i < chars.len()
        invariant
            chars@ == path@,
            i <= chars@.len(),
            out@ == sbpl_quote(path@.take(i as int)),
        decreases chars@.len() - i,
    {
        let c = chars[i];
        if c == '\\' {
            out.append("\\\\");
        } else if c == '"' {
            out.append("\\\"");
        } else {
            out.append(path.substring_char(i, i + 1));
        }
        assert(path@.take(i + 1).drop_last() =~= path@.take(i as int));
        assert(path@.subrange(i as int, i + 1) =~= seq![c]);
        i += 1;
    }
    assert(path@.take(path@.len() as int) =~= path@);
    out
}

/// The profile's lines before the denied reads.
pub open spec fn profile_head() -> Seq<Seq<char>> {
    seq![
        "(version 1)"@,
        "(deny default)"@,
        "(allow process-fork)"@,
        "(allow process-exec*)"@,
        "(allow sysctl-read)"@,
        "(allow mach-lookup)"@,
        "(allow signal (target self))"@,
        "(allow file-read*)"@,
    ]
}

/// `(deny file-read* (subpath "<p>"))` for each denied path.
pub open spec fn deny_lines(paths: Seq<Seq<char>>) -> Seq<Seq<char>> {
    paths.map_values(|p: Seq<char>| "(deny file-read* (subpath \""@ + sbpl_quote(p) + "\"))"@)
}

/// `(allow file-write* (subpath "<r>"))` for each writable root.
pub open spec fn write_lines(roots: Seq<Seq<char>>) -> Seq<Seq<char>> {
    roots.map_values(|r: Seq<char>| "(allow file-write* (subpath \""@ + sbpl_quote(r) + "\"))"@)
}

/// The profile's closing lines: `/dev/null` writable, and only unix-socket network.
pub open spec fn profile_tail() -> Seq<Seq<char>> {
    seq!["(allow file-write* (literal \"/dev/null\"))"@, "(allow network-outbound (remote unix-socket))"@]
}

/// Each line followed by a newline.
pub open spec fn lines_text(lines: Seq<Seq<char>>) -> Seq<char>
    decreases lines.len(),
{
    if lines.len() == 0 {
        seq![]
    } else {
        lines_text(lines.drop_last()) + lines.last() + "\n"@
    }
}

/// OS-sandboxed guest via macOS `sandbox-exec`.
#[derive(Debug, Clone)]
pub struct SeatbeltBackend {
    deny_read_paths: Vec<String>,
    tmp_roots: Vec<String>,
}

impl SeatbeltBackend {
    /// The denied read paths (already expanded).
    pub closed spec fn deny_paths(&self) -> Seq<Seq<char>> {
        strings_view(self.deny_read_paths@)
    }

    /// The temporary directories the guest may write besides its own.
    pub closed spec fn tmp_dirs(&self) -> Seq<Seq<char>> {
        strings_view(self.tmp_roots@)
    }

    /// The generated profile for a run in `ctx`.
    pub open spec fn profile_spec(&self, ctx: LaunchCtx) -> Seq<char> {
        lines_text(
            profile_head() + deny_lines(self.deny_paths()) + write_lines(
                seq![ctx.workdir@, socket_dir_spec(ctx)] + self.tmp_dirs(),
            ) + profile_tail(),
        )
    }

    /// Build with an explicit deny-read base set plus extra denied paths; a
    /// leading `~` is expanded to `home`. The guest may also write the
    /// temporary directories `tmp_roots`: the caller gives them resolved
    /// (absolute and symlink-free, as the sandbox matches resolved paths), and
    /// they are usually the resolved forms of `/private/tmp` and `/tmp`.
    pub fn new(
        deny_read_paths: Vec<String>,
        add_deny_read_paths: Vec<String>,
        home: Option<String>,
        tmp_roots: Vec<String>,
    ) -> (b: Self)
        ensures
            b.deny_paths() == (strings_view(deny_read_paths@) + strings_view(add_deny_read_paths@)).map_values(
                |p: Seq<char>| expand_home_spec(p, opt_view(home)),
            ),
            b.tmp_dirs() == strings_view(tmp_roots@),
    {
        let ghost hv = opt_view(home);
        let ghost all = strings_view(deny_read_paths@) + strings_view(add_deny_read_paths@);
        let mut out: Vec<String> = Vec::new();
        let mut i: usize = 0;
        while i < deny_read_paths.len()
            invariant
                i <= deny_read_paths@.len(),
                all == strings_view(deny_read_paths@) + strings_view(add_deny_read_paths@),
                hv == opt_view(home),
                strings_view(out@) == all.take(i as int).map_values(|p: Seq<char>| expand_home_spec(p, hv)),
            decreases deny_read_paths@.len() - i,
        {
            let e = expand_home(deny_read_paths[i].as_str(), &home);
            push_string(&mut out, e);
            assert(all[i as int] == deny_read_paths@[i as int]@);
            assert(all.take(i + 1) =~= all.take(i as int).push(all[i as int]));
            assert(strings_view(out@) =~= all.take(i + 1).map_values(|p: Seq<char>| expand_home_spec(p, hv)));
            i += 1;
        }
        let n = deny_read_paths.len();
        let mut j: usize = 0;
        while j < add_deny_read_paths.len()
            invariant
                j <= add_deny_read_paths@.len(),
                n == deny_read_paths@.len(),
                all == strings_view(deny_read_paths@) + strings_view(add_deny_read_paths@),
                hv == opt_view(home),
                strings_view(out@) == all.take(n + j).map_values(|p: Seq<char>| expand_home_spec(p, hv)),
            decreases add_deny_read_paths@.len() - j,
        {
            let e = expand_home(add_deny_read_paths[j].as_str(), &home);
            push_string(&mut out, e);
            assert(all[n + j] == add_deny_read_paths@[j as int]@);
            assert(all.take(n + j + 1) =~= all.take(n + j).push(all[n + j]));
            assert(strings_view(out@) =~= all.take(n + j + 1).map_values(|p: Seq<char>| expand_home_spec(p, hv)));
            j += 1;
        }
        assert(all.take(all.len() as int) =~= all);
        SeatbeltBackend { deny_read_paths: out, tmp_roots }
    }

    /// The default backend: the default secret paths, with `~` expanded to
    /// `home`, and the resolved temporary directories `tmp_roots`.
    pub fn with_home(home: Option<String>, tmp_roots: Vec<String>) -> (b: Self)
        ensures
            b.deny_paths() == default_deny_read_spec().map_values(|p: Seq<char>| expand_home_spec(p, opt_view(home))),
            b.tmp_dirs() == strings_view(tmp_roots@),
    {
        let extra: Vec<String> = Vec::new();
        assert(strings_view(extra@) =~= Seq::<Seq<char>>::empty());
        assert(default_deny_read_spec() + Seq::<Seq<char>>::empty() =~= default_deny_read_spec());
        SeatbeltBackend::new(default_deny_read_paths(), extra, home, tmp_roots)
    }

    /// The generated SBPL profile for a run in `ctx`. The write grants are
    /// `ctx.workdir`, the endpoint's directory and the temporary roots, used
    /// as given: the caller passes resolved paths.
    pub fn profile(&self, ctx: &LaunchCtx) -> (p: String)
        ensures
            p@ == self.profile_spec(*ctx),
    {
        let mut lines: Vec<String> = Vec::new();
        push_str(&mut lines, "(version 1)");
        push_str(&mut lines, "(deny default)");
        push_str(&mut lines, "(allow process-fork)");
        push_str(&mut lines, "(allow process-exec*)");
        push_str(&mut lines, "(allow sysctl-read)");
        push_str(&mut lines, "(allow mach-lookup)");
        push_str(&mut lines, "(allow signal (target self))");
        push_str(&mut lines, "(allow file-read*)");
        assert(strings_view(lines@) =~= profile_head());
        let mut i: usize = 0;
        while i < self.deny_read_paths.len()
            invariant
                i <= self.deny_read_paths@.len(),
                strings_view(lines@) == profile_head() + deny_lines(self.deny_paths().take(i as int)),
            decreases self.deny_read_paths@.len() - i,
        {
            let line = subpath_line("(deny file-read* (subpath \"", self.deny_read_paths[i].as_str());
            push_string(&mut lines, line);
            assert(self.deny_paths().take(i + 1) =~= self.deny_paths().take(i as int).push(self.deny_read_paths@[i as int]@));
            assert(strings_view(lines@) =~= profile_head() + deny_lines(self.deny_paths().take(i + 1)));
            i += 1;
        }
        assert(self.deny_paths().take(self.deny_paths().len() as int) =~= self.deny_paths());
        let ghost before_writes = strings_view(lines@);
        let mut roots: Vec<String> = Vec::new();
        push_string(&mut roots, ctx.workdir.clone());
        push_string(&mut roots, ctx.socket_dir());
        assert(strings_view(roots@) =~= seq![ctx.workdir@, socket_dir_spec(*ctx)] + self.tmp_dirs().take(0));
        let mut k: usize = 0;
        while k < self.tmp_roots.len()
            invariant
                k <= self.tmp_roots@.len(),
                strings_view(roots@) == seq![ctx.workdir@, socket_dir_spec(*ctx)] + self.tmp_dirs().take(k as int),
            decreases self.tmp_roots@.len() - k,
        {
            push_string(&mut roots, self.tmp_roots[k].clone());
            assert(strings_view(roots@) =~= seq![ctx.workdir@, socket_dir_spec(*ctx)] + self.tmp_dirs().take(k + 1));
            k += 1;
        }
        assert(self.tmp_dirs().take(self.tmp_dirs().len() as int) =~= self.tmp_dirs());
        let ghost all_roots = strings_view(roots@);
        let mut j: usize = 0;
        while j < roots.len()
            invariant
                j <= roots@.len(),
                all_roots == strings_view(roots@),
                strings_view(lines@) == before_writes + write_lines(all_roots.take(j as int)),
            decreases roots@.len() - j,
        {
            let line = subpath_line("(allow file-write* (subpath \"", roots[j].as_str());
            push_string(&mut lines, line);
            assert(all_roots.take(j + 1) =~= all_roots.take(j as int).push(roots@[j as int]@));
            assert(strings_view(lines@) =~= before_writes + write_lines(all_roots.take(j + 1)));
            j += 1;
        }
        assert(all_roots.take(all_roots.len() as int) =~= all_roots);
        push_str(&mut lines, "(allow file-write* (literal \"/dev/null\"))");
        push_str(&mut lines, "(allow network-outbound (remote unix-socket))");
        let ghost all_lines = profile_head() + deny_lines(self.deny_paths()) + write_lines(all_roots) + profile_tail();
        assert(strings_view(lines@) =~= all_lines);
        join_lines(&lines)
    }
}

/// `<open><quoted path>"))`.
fn subpath_line(open: &str, path: &str) -> (l: String)
    ensures
        l@ == open@ + sbpl_quote(path@) + "\"))"@,
{
    str_concat(str_concat(open, q(path).as_str()).as_str(), "\"))")
}

/// Each line followed by a newline, concatenated.
fn join_lines(lines: &Vec<String>) -> (t: String)
    ensures
        t@ == lines_text(strings_view(lines@)),
{
    let mut out = String::new();
    let mut i: usize = 0;
    while i < lines.len()
        invariant
            i <= lines@.len(),
            out@ == lines_text(strings_view(lines@).take(i as int)),
        decreases lines@.len() - i,
    {
        out.append(lines[i].as_str());
        out.append("\n");
        assert(strings_view(lines@).take(i + 1).drop_last() =~= strings_view(lines@).take(i as int));
        i += 1;
    }
    assert(strings_view(lines@).take(lines@.len() as int) =~= strings_view(lines@));
    out
}

impl SandboxBackend for SeatbeltBackend {
    /// `sandbox-exec -p <profile>`.
    open spec fn wraps(&self, ctx: LaunchCtx, argv: Seq<Seq<char>>) -> bool {
        argv == seq!["sandbox-exec"@, "-p"@, self.profile_spec(ctx)]
    }

    /// On macOS, with `sandbox-exec` installed.
    open spec fn available_on(&self, host: HostFacts) -> bool {
        host.os@ == "macos"@ && has_string(host.existing@, "/usr/bin/sandbox-exec"@)
    }

    /// The guest runs under a deny-by-default profile.
    open spec fn isolates(&self) -> bool {
        true
    }

    /// No interpreter is pinned: the runner's own is used.
    open spec fn pinned_python(&self) -> Option<Seq<char>> {
        None
    }

    fn python_exe(&self) -> (p: Option<String>) {
        None
    }

    fn name(&self) -> (n: &'static str)
        ensures
            n@ == "seatbelt"@,
    {
        "seatbelt"
    }

    fn provides_isolation(&self) -> (b: bool)
        ensures
            b,
    {
        true
    }

    fn is_available(&self, host: &HostFacts) -> (b: bool)
        ensures
            b == (host.os@ == "macos"@ && has_string(host.existing@, "/usr/bin/sandbox-exec"@)),
    {
        crate::config::str_eq(host.os.as_str(), "macos") && holds_string(&host.existing, "/usr/bin/sandbox-exec")
    }

    fn wrapper_argv(&self, ctx: &LaunchCtx) -> (argv: Vec<String>)
        ensures
            strings_view(argv@) == seq!["sandbox-exec"@, "-p"@, self.profile_spec(*ctx)],
    {
        let mut argv: Vec<String> = Vec::new();
        push_str(&mut argv, "sandbox-exec");
        push_str(&mut argv, "-p");
        push_string(&mut argv, self.profile(ctx));
        assert(strings_view(argv@) =~= seq!["sandbox-exec"@, "-p"@, self.profile_spec(*ctx)]);
        argv
    }

    fn extra_env(&self) -> (v: Vec<(String, String)>)
        ensures
            v@.len() == 1,
            v@[0].0@ == "PYTHONDONTWRITEBYTECODE"@,
            v@[0].1@ == "1"@,
    {
        no_bytecode_env()
    }
}

/// The text of two runs of lines is the text of the first, then of the second.
proof fn lemma_lines_text_concat(a: Seq<Seq<char>>, b: Seq<Seq<char>>)
    ensures
        lines_text(a + b) == lines_text(a) + lines_text(b),
    decreases b.len(),
{
    if b.len() == 0 {
        assert(a + b =~= a);
        assert(lines_text(b) =~= Seq::<char>::empty());
        assert(lines_text(a) + lines_text(b) =~= lines_text(a));
    } else {
        lemma_lines_text_concat(a, b.drop_last());
        assert((a + b).drop_last() =~= a + b.drop_last());
        assert((a + b).last() == b.last());
        assert(lines_text(a + b) =~= lines_text(a) + lines_text(b));
    }
}

/// Every line of a text occurs in it, followed by a newline.
proof fn lemma_line_in_text(lines: Seq<Seq<char>>, i: int)
    requires
        0 <= i < lines.len(),
    ensures
        seq_contains(lines_text(lines), lines[i] + "\n"@),
{
    let a = lines.take(i + 1);
    let b = lines.skip(i + 1);
    assert(lines =~= a + b);
    lemma_lines_text_concat(a, b);
    assert(a.drop_last() =~= lines.take(i));
    assert(a.last() == lines[i]);
    let pre = lines_text(lines.take(i));
    let needle = lines[i] + "\n"@;
    let hay = lines_text(lines);
    assert(hay =~= pre + needle + lines_text(b));
    assert(hay.subrange(pre.len() as int, (pre.len() + needle.len()) as int) =~= needle);
}

/// Whatever the launch context, a Seatbelt profile lets the guest write its
/// own staging directory, the broker socket's directory and every temporary
/// root: it holds the line `(allow file-write* (subpath "<quoted path>"))`
/// for each of them. It also denies everything by default.
pub proof fn lemma_profile_grants_writes(b: SeatbeltBackend, ctx: LaunchCtx)
    ensures
        seq_contains(b.profile_spec(ctx), "(allow file-write* (subpath \""@ + sbpl_quote(ctx.workdir@) + "\"))"@ + "\n"@),
        seq_contains(
            b.profile_spec(ctx),
            "(allow file-write* (subpath \""@ + sbpl_quote(socket_dir_spec(ctx)) + "\"))"@ + "\n"@,
        ),
        forall|k: int|
            0 <= k < b.tmp_dirs().len() ==> seq_contains(
                b.profile_spec(ctx),
                "(allow file-write* (subpath \""@ + sbpl_quote(#[trigger] b.tmp_dirs()[k]) + "\"))"@ + "\n"@,
            ),
        seq_contains(b.profile_spec(ctx), "(deny default)"@ + "\n"@),
{
    let roots = seq![ctx.workdir@, socket_dir_spec(ctx)] + b.tmp_dirs();
    let head = profile_head() + deny_lines(b.deny_paths());
    let lines = head + write_lines(roots) + profile_tail();
    let n = head.len() as int;
    assert(lines[n] == write_lines(roots)[0]);
    lemma_line_in_text(lines, n);
    assert(lines[n + 1] == write_lines(roots)[1]);
    lemma_line_in_text(lines, n + 1);
    assert forall|k: int| 0 <= k < b.tmp_dirs().len() implies seq_contains(
        b.profile_spec(ctx),
        "(allow file-write* (subpath \""@ + sbpl_quote(#[trigger] b.tmp_dirs()[k]) + "\"))"@ + "\n"@,
    ) by {
        assert(roots[k + 2] == b.tmp_dirs()[k]);
        assert(lines[n + 2 + k] == write_lines(roots)[k + 2]);
        lemma_line_in_text(lines, n + 2 + k);
    }
    assert(lines[1] == profile_head()[1]);
    lemma_line_in_text(lines, 1);
}

} // verus!

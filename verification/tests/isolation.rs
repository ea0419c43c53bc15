use chuk_tool_runtime::isolation::limits::{
    DEFAULT_CPU_SECONDS, DEFAULT_MAX_TOOL_CALLS, DEFAULT_WALL_TIMEOUT,
};
use chuk_tool_runtime::isolation::wire::{decode_header, encode_header, frame, WireError, MAX_FRAME_BYTES};
use chuk_tool_runtime::isolation::{
    truncate_utf8, BubblewrapBackend, HostFacts, IsolationLimits, LaunchCtx, LocalBackend, SandboxBackend,
    SeatbeltBackend,
};

fn argv(allow_network: bool) -> Vec<String> {
    let ctx = LaunchCtx {
        workdir: "/work".to_string(),
        endpoint: "/sock/broker.sock".to_string(),
    };
    BubblewrapBackend::new(allow_network).wrapper_argv(&ctx)
}

fn window(argv: &[String], a: &str, b: &str) -> bool {
    argv.windows(2).any(|w| w[0] == a && w[1] == b)
}

fn host(os: &str, on_path: &[&str], existing: &[&str]) -> HostFacts {
    HostFacts {
        os: os.to_string(),
        on_path: on_path.iter().map(|s| s.to_string()).collect(),
        existing: existing.iter().map(|s| s.to_string()).collect(),
    }
}

#[test]
fn no_network_by_default_and_mounts_workdir_ro() {
    let a = argv(false);
    assert_eq!(a[0], "bwrap");
    assert!(a.contains(&"--unshare-net".to_string()));
    assert!(window(&a, "--tmpfs", "/tmp"));
    assert!(window(&a, "--ro-bind", "/work")); // staging dir read-only
    assert!(window(&a, "--bind", "/sock")); // socket dir writable
    assert_eq!(a.last().unwrap(), "--");
}

#[test]
fn allow_network_drops_unshare_net() {
    assert!(!argv(true).contains(&"--unshare-net".to_string()));
}

#[test]
fn identity_and_metadata() {
    let b = BubblewrapBackend::default();
    assert_eq!(b.name(), "bubblewrap");
    assert!(b.provides_isolation());
    assert_eq!(b.extra_env(), vec![("PYTHONDONTWRITEBYTECODE".to_string(), "1".to_string())]);
    assert!(b.is_available(&host("linux", &["sh", "bwrap"], &[])));
    assert!(!b.is_available(&host("macos", &["bwrap"], &[])));
    assert!(!b.is_available(&host("linux", &["sh"], &[])));
}

#[test]
fn is_a_non_isolating_passthrough() {
    let b = LocalBackend;
    assert_eq!(b.name(), "local");
    assert!(!b.provides_isolation());
    assert!(b.is_available(&host("anything", &[], &[])));
    let ctx = LaunchCtx {
        workdir: "/w".to_string(),
        endpoint: "/w/s.sock".to_string(),
    };
    assert!(b.wrapper_argv(&ctx).is_empty());
    // Identity mapping by default.
    assert_eq!(b.workdir_guest(&ctx), ctx.workdir);
    assert_eq!(b.endpoint_guest(&ctx), ctx.endpoint);
    assert!(b.python_exe().is_none());
}

#[test]
fn profile_denies_default_and_allows_broker_socket() {
    let ctx = LaunchCtx {
        workdir: "/tmp/work".to_string(),
        endpoint: "/tmp/work/broker.sock".to_string(),
    };
    let tmp = vec!["/private/tmp".to_string()];
    let profile = SeatbeltBackend::with_home(Some("/home/u".to_string()), tmp).profile(&ctx);
    assert!(profile.contains("(deny default)"));
    assert!(profile.contains("(allow network-outbound (remote unix-socket))"));
    assert!(profile.contains(".ssh")); // a default secret path is denied
    assert!(profile.contains("(deny file-read* (subpath \"/home/u/.ssh\"))"));
    assert!(profile.contains("(allow file-write* (subpath \"/tmp/work\"))"));
    assert!(profile.contains("(allow file-write* (subpath \"/private/tmp\"))"));
    assert!(profile.starts_with("(version 1)\n(deny default)\n"));
    assert!(profile.ends_with("(allow network-outbound (remote unix-socket))\n"));
}

#[test]
fn seatbelt_quotes_paths_and_keeps_unexpanded_tilde_without_home() {
    let b = SeatbeltBackend::new(vec!["~/a\"b".to_string()], vec!["/c\\d".to_string()], None, Vec::new());
    let ctx = LaunchCtx { workdir: "/w".to_string(), endpoint: "/s/x.sock".to_string() };
    let p = b.profile(&ctx);
    assert!(p.contains("(deny file-read* (subpath \"~/a\\\"b\"))"));
    assert!(p.contains("(deny file-read* (subpath \"/c\\\\d\"))"));
    let argv = b.wrapper_argv(&ctx);
    assert_eq!(argv[0], "sandbox-exec");
    assert_eq!(argv[1], "-p");
    assert_eq!(argv[2], p);
    assert!(b.is_available(&host("macos", &[], &["/usr/bin/sandbox-exec"])));
    assert!(!b.is_available(&host("linux", &[], &["/usr/bin/sandbox-exec"])));
}

#[test]
fn defaults_are_the_named_constants() {
    let l = IsolationLimits::default();
    assert_eq!(l.wall_timeout, DEFAULT_WALL_TIMEOUT);
    assert_eq!(l.cpu_seconds, Some(DEFAULT_CPU_SECONDS));
    assert_eq!(l.max_tool_calls, DEFAULT_MAX_TOOL_CALLS);
}

#[test]
fn builders_override_fields() {
    let l = IsolationLimits::default()
        .with_wall_timeout(1000)
        .with_cpu_seconds(2)
        .with_memory_bytes(1024)
        .with_max_tool_calls(3);
    assert_eq!(l.wall_timeout, 1000);
    assert_eq!(l.cpu_seconds, Some(2));
    assert_eq!(l.memory_bytes, Some(1024));
    assert_eq!(l.max_tool_calls, 3);
}

#[test]
fn truncate_respects_byte_cap_and_char_boundaries() {
    assert_eq!(truncate_utf8("hello".to_string(), 10), "hello");
    assert_eq!(truncate_utf8("hello".to_string(), 3), "hel");
    // "é" is 2 bytes; a cap of 1 must not split it.
    assert_eq!(truncate_utf8("é".to_string(), 1), "");
    assert_eq!(truncate_utf8("aé€".to_string(), 5), "aé");
}

#[test]
fn frame_header_round_trips_and_caps() {
    let h = encode_header(1024).unwrap();
    assert_eq!(h, [0, 0, 4, 0]);
    assert_eq!(decode_header(h), Ok(1024));
    assert_eq!(encode_header(MAX_FRAME_BYTES + 1), Err(WireError::MessageTooLarge(MAX_FRAME_BYTES + 1)));
    let big = ((MAX_FRAME_BYTES + 1) as u32).to_be_bytes();
    assert_eq!(decode_header(big), Err(WireError::FrameTooLarge(MAX_FRAME_BYTES + 1)));
    let f = frame(b"{\"id\":1}").unwrap();
    assert_eq!(&f[..4], &[0, 0, 0, 8]);
    assert_eq!(&f[4..], b"{\"id\":1}");
}

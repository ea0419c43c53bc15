use chuk_tool_runtime::isolation::{
    BrokerSession, BubblewrapBackend, IsolatedResult, IsolatedRunner, IsolationLimits, LaunchCtx, LocalBackend,
};
use chuk_tool_runtime::isolation::bubblewrap::bwrap_argv_for;
use chuk_tool_runtime::isolation::runner::pick_python;
use chuk_tool_runtime::runtime::no_router_outcome;

fn ctx() -> LaunchCtx {
    LaunchCtx { workdir: "/w".to_string(), endpoint: "/s/broker.sock".to_string() }
}

#[test]
fn runner_refuses_an_unisolated_backend_unless_allowed() {
    let local = IsolatedRunner::new(LocalBackend, ());
    assert!(!local.may_run());
    assert!(local.allow_no_isolation(true).may_run());
    let bwrap = IsolatedRunner::new(BubblewrapBackend::new(false), ());
    assert!(bwrap.may_run());
    assert!(bwrap.allow_no_isolation(false).may_run());
}

#[test]
fn launch_argv_runs_the_guest_under_the_runner_interpreter() {
    let runner = IsolatedRunner::new(LocalBackend, ());
    let argv = runner.launch_argv(&ctx(), "/w/guest.py", "/w/job.json");
    assert_eq!(argv.len(), 3);
    let candidates = ["/usr/bin/python3", "/opt/homebrew/bin/python3", "/usr/local/bin/python3", "python3"];
    assert!(candidates.contains(&argv[0].as_str()));
    assert_eq!(&argv[1..], &["/w/guest.py".to_string(), "/w/job.json".to_string()]);

    let sandboxed = IsolatedRunner::new(BubblewrapBackend::new(false), ());
    let argv = sandboxed.launch_argv(&ctx(), "/w/guest.py", "/w/job.json");
    assert_eq!(argv[0], "bwrap");
    assert_eq!(&argv[argv.len() - 2..], &["/w/guest.py".to_string(), "/w/job.json".to_string()]);
}

#[test]
fn broker_config_carries_namespace_allowlist_and_ceiling() {
    let runner = IsolatedRunner::new(LocalBackend, ())
        .namespace("team")
        .allowed_tools(vec!["echo".to_string(), "team.search".to_string()])
        .limits(IsolationLimits::default().with_max_tool_calls(7));
    let cfg = runner.broker_config("tok".to_string());
    assert_eq!(cfg.token, "tok");
    assert_eq!(cfg.namespace, "team");
    assert_eq!(cfg.allowed_tools, Some(vec!["echo".to_string(), "team.search".to_string()]));
    assert_eq!(cfg.max_tool_calls, 7);
    assert!(cfg.is_allowed("search"));
    assert!(!cfg.is_allowed("delete"));
    assert_eq!(runner.job_tools(), vec!["echo".to_string(), "team.search".to_string()]);
    assert!(IsolatedRunner::new(LocalBackend, ()).job_tools().is_empty());
}

#[test]
fn completed_run_truncates_captured_output() {
    let mut session = BrokerSession::new();
    session.tool_calls = 2;
    let r = IsolatedResult::completed(session, "hello world".to_string(), "é".to_string(), true, 5);
    assert_eq!(r.stdout, "hello");
    assert_eq!(r.stderr, "é");
    assert_eq!(r.tool_calls, 2);
    assert!(r.value.is_none());
    assert!(r.exit_ok && !r.timed_out);

    let t = IsolatedResult::timed_out();
    assert!(t.timed_out && !t.exit_ok);
    assert_eq!(t.stderr, "guest run timed out");
}

#[test]
fn socket_dir_is_the_endpoint_parent() {
    assert_eq!(ctx().socket_dir(), "/s");
    let bare = LaunchCtx { workdir: "/w".to_string(), endpoint: "/".to_string() };
    assert_eq!(bare.socket_dir(), "/tmp");
}

#[test]
fn pinned_call_without_a_router_fails() {
    let out = no_router_outcome("echo");
    assert!(!out.success);
    assert_eq!(out.tool, "echo");
    assert_eq!(out.error.as_deref(), Some("call_on requires a router-based runtime"));
}

#[test]
fn the_first_present_interpreter_is_picked() {
    assert_eq!(pick_python(&[true, true, true]), "/usr/bin/python3");
    assert_eq!(pick_python(&[false, true, true]), "/opt/homebrew/bin/python3");
    assert_eq!(pick_python(&[false, false, true]), "/usr/local/bin/python3");
    assert_eq!(pick_python(&[false, false, false]), "python3");
}

#[test]
fn present_system_roots_are_bound_read_only() {
    let present = [true, false, false, true, false, true];
    let a = bwrap_argv_for(false, &present, &ctx());
    let binds: Vec<&str> = a.windows(3).filter(|w| w[0] == "--ro-bind" && w[1] == w[2]).map(|w| w[1].as_str()).collect();
    assert_eq!(binds, vec!["/usr", "/lib", "/etc", "/w"]);
    assert_eq!(a[6], "--unshare-net");
    let open = bwrap_argv_for(true, &present, &ctx());
    let mut closed = a.clone();
    closed.remove(6);
    assert_eq!(open, closed);
}

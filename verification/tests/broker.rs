use chuk_tool_runtime::isolation::{BrokerAction, BrokerConfig, BrokerRequest, BrokerSession, ReplyBody};
use chuk_tool_runtime::ToolOutcome;
use serde_json::Value;

fn cfg(allowed: Option<&[&str]>, max_tool_calls: usize) -> BrokerConfig {
    BrokerConfig {
        token: "secret".into(),
        namespace: "default".into(),
        allowed_tools: allowed.map(|a| a.iter().map(|s| s.to_string()).collect()),
        max_tool_calls,
    }
}

fn req(id: i64, method: &str) -> BrokerRequest {
    BrokerRequest {
        id: Value::from(id),
        method: Some(method.to_string()),
        token: None,
        name: None,
        namespace: None,
        arguments: Value::Object(serde_json::Map::new()),
        value: Value::Null,
    }
}

fn hello(token: &str) -> BrokerRequest {
    BrokerRequest { token: Some(token.to_string()), ..req(1, "hello") }
}

fn call(id: i64, name: &str) -> BrokerRequest {
    BrokerRequest { name: Some(name.to_string()), ..req(id, "call_tool") }
}

/// Host tools for tests: echoes for anything but "boom", which fails.
fn host_tool(name: &str, args: &Value) -> ToolOutcome {
    if name == "boom" {
        ToolOutcome::err(name, "kaboom")
    } else {
        let mut m = serde_json::Map::new();
        m.insert("echoed".to_string(), args.clone());
        ToolOutcome::ok(name, Value::Object(m))
    }
}

/// Handle one request, running the host tool when asked; returns (ok, value-or-error).
fn step(s: &mut BrokerSession, c: &BrokerConfig, r: &BrokerRequest) -> (bool, Option<Value>, Option<String>) {
    let reply = match s.handle(c, r) {
        BrokerAction::Reply(r) | BrokerAction::Close(r) => r,
        BrokerAction::CallTool { id, name, arguments } => {
            let out = host_tool(&name, &arguments);
            s.tool_finished(id, &out)
        },
    };
    match reply.body {
        ReplyBody::Ack => (true, None, None),
        ReplyBody::Value(v) => (true, Some(v.unwrap_or(Value::Null)), None),
        ReplyBody::Names(n) => (true, Some(Value::from(n)), None),
        ReplyBody::Error(e) => (false, None, Some(e)),
    }
}

#[test]
fn happy_path_call_and_result() {
    let c = cfg(Some(&["echo"]), usize::MAX);
    let mut s = BrokerSession::new();
    assert!(matches!(s.hello(&c, &hello("secret")), BrokerAction::Reply(_)));

    let mut args = serde_json::Map::new();
    args.insert("x".to_string(), Value::from(1));
    let r = BrokerRequest { arguments: Value::Object(args.clone()), ..call(2, "echo") };
    let (ok, value, _) = step(&mut s, &c, &r);
    assert!(ok);
    let mut expected = serde_json::Map::new();
    expected.insert("echoed".to_string(), Value::Object(args));
    assert_eq!(value, Some(Value::Object(expected)));

    let fin = BrokerRequest { value: Value::from(42), ..req(3, "result") };
    assert!(step(&mut s, &c, &fin).0);
    assert!(s.authorized);
    assert_eq!(s.tool_calls, 1);
    assert_eq!(s.result, Some(Value::from(42)));
}

#[test]
fn rejects_bad_token() {
    let c = cfg(None, usize::MAX);
    let mut s = BrokerSession::new();
    match s.hello(&c, &hello("wrong")) {
        BrokerAction::Close(r) => match r.body {
            ReplyBody::Error(e) => assert_eq!(e, "unauthorized"),
            _ => panic!("expected an error reply"),
        },
        _ => panic!("expected the session to close"),
    }
    assert!(!s.authorized);
}

#[test]
fn enforces_allowlist_and_tool_errors() {
    let c = cfg(Some(&["echo"]), usize::MAX);
    let mut s = BrokerSession::new();
    s.hello(&c, &hello("secret"));
    // not on the allowlist
    let (ok, _, err) = step(&mut s, &c, &call(2, "boom"));
    assert!(!ok);
    assert!(err.unwrap().contains("not permitted"));
    // a wrong namespace is rejected even for an allowed tool
    let r = BrokerRequest { namespace: Some("evil".to_string()), ..call(3, "echo") };
    assert!(step(&mut s, &c, &r).2.unwrap().contains("namespace"));
}

#[test]
fn enforces_the_tool_call_ceiling() {
    let c = cfg(None, 1);
    let mut s = BrokerSession::new();
    s.hello(&c, &hello("secret"));
    assert!(step(&mut s, &c, &call(2, "echo")).0);
    let (ok, _, err) = step(&mut s, &c, &call(3, "echo"));
    assert!(!ok);
    assert!(err.unwrap().contains("limit"));
    assert_eq!(s.tool_calls, 1);
}

#[test]
fn tool_failure_becomes_error_reply() {
    let c = cfg(None, usize::MAX);
    let mut s = BrokerSession::new();
    s.hello(&c, &hello("secret"));
    let (ok, _, err) = step(&mut s, &c, &call(2, "boom"));
    assert!(!ok);
    assert_eq!(err.as_deref(), Some("kaboom"));
    assert_eq!(s.tool_calls, 0);
}

#[test]
fn qualified_allowlist_entries_and_listing() {
    let c = cfg(Some(&["default.search"]), usize::MAX);
    assert!(c.is_allowed("search"));
    assert!(!c.is_allowed("other"));
    assert_eq!(c.list_tools(), vec!["default.search".to_string()]);
    assert!(cfg(None, 1).list_tools().is_empty());
}

#[test]
fn no_tool_calls_after_result_and_first_result_wins() {
    let c = cfg(None, usize::MAX);
    let mut s = BrokerSession::new();
    s.hello(&c, &hello("secret"));
    // A result is acknowledged and ends the session.
    assert!(matches!(s.handle(&c, &BrokerRequest { value: Value::from(1), ..req(2, "result") }), BrokerAction::Close(_)));
    step(&mut s, &c, &BrokerRequest { value: Value::from(2), ..req(3, "result") });
    assert_eq!(s.result, Some(Value::from(1)));
    assert_eq!(step(&mut s, &c, &call(4, "echo")).2.as_deref(), Some("run already completed"));
    assert_eq!(step(&mut s, &c, &req(5, "dance")).2.as_deref(), Some("unknown method: dance"));
    let missing = req(6, "call_tool");
    let mut s2 = BrokerSession::new();
    s2.hello(&c, &hello("secret"));
    assert_eq!(step(&mut s2, &c, &missing).2.as_deref(), Some("missing tool name"));
}

#[test]
fn no_tool_runs_before_the_handshake() {
    let c = cfg(None, usize::MAX);
    let mut s = BrokerSession::new();
    assert!(matches!(s.handle(&c, &call(1, "echo")), BrokerAction::Reply(_)));
    assert_eq!(step(&mut s, &c, &call(2, "echo")).2.as_deref(), Some("unauthorized"));
    assert_eq!(s.tool_calls, 0);
}

#[test]
fn duplicate_allowlist_names_are_listed_once() {
    let c = cfg(Some(&["echo", "search", "echo"]), usize::MAX);
    assert_eq!(c.list_tools(), vec!["echo".to_string(), "search".to_string()]);
}

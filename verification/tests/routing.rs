use chuk_tool_runtime::{Router, ToolRegistry, NO_SERVER_PREFIX};

fn names(list: &[&str]) -> Vec<String> {
    list.iter().map(|s| s.to_string()).collect()
}

#[test]
fn first_server_wins_the_name() {
    let mut reg = ToolRegistry::new();
    reg.register("trusted", &names(&["read_file", "search"]));
    reg.register("community", &names(&["read_file"]));

    assert_eq!(reg.owner("read_file"), Some("trusted"));
    assert_eq!(reg.providers("read_file"), vec!["trusted", "community"]);
    assert_eq!(reg.owner("search"), Some("trusted"));
}

#[test]
fn collisions_lists_multi_provider_names_only() {
    let mut reg = ToolRegistry::new();
    reg.register("a", &names(&["shared", "only_a"]));
    reg.register("b", &names(&["shared"]));

    let collisions = reg.collisions();
    assert_eq!(collisions.get("shared"), Some(&vec!["a".into(), "b".into()]));
    assert!(!collisions.contains_key("only_a"));
}

#[test]
fn re_registering_same_server_is_idempotent() {
    let mut reg = ToolRegistry::new();
    reg.register("a", &names(&["t"]));
    reg.register("a", &names(&["t"]));
    assert_eq!(reg.providers("t"), vec!["a"]); // not duplicated
    assert_eq!(reg.collisions().len(), 0);
}

#[test]
fn empty_tool_names_are_ignored() {
    let mut reg = ToolRegistry::new();
    reg.register("a", &names(&["", "real"]));
    assert_eq!(reg.owner(""), None);
    assert_eq!(reg.owner("real"), Some("a"));
}

#[test]
fn unknown_tool_has_no_owner_or_providers() {
    let reg = ToolRegistry::new();
    assert_eq!(reg.owner("nope"), None);
    assert!(reg.providers("nope").is_empty());
}

/// A router whose "invokers" are tags naming the server that would handle a call.
fn two_server_router() -> Router<&'static str> {
    let mut r = Router::new();
    r.add_server("a", "a");
    r.add_server("b", "b");
    r.register_tools("a", &names(&["shared"]));
    r.register_tools("b", &names(&["shared", "only_b"]));
    r
}

#[test]
fn routes_to_first_wins_owner() {
    let r = two_server_router();
    assert_eq!(r.route("shared").ok(), Some(&"a"));
}

#[test]
fn routes_unique_tool_to_its_server() {
    let r = two_server_router();
    assert_eq!(r.route("only_b").ok(), Some(&"b"));
}

#[test]
fn unknown_tool_errors() {
    let r = two_server_router();
    let out = r.route("ghost").err().unwrap();
    assert!(out.is_error());
    assert!(out.error.unwrap().contains(NO_SERVER_PREFIX));
}

#[test]
fn call_on_pins_the_shadowed_server() {
    let r = two_server_router();
    // "shared" is owned by "a", but pin to "b" explicitly.
    assert_eq!(r.route_on("b", "shared").ok(), Some(&"b"));
}

#[test]
fn call_on_unknown_server_errors() {
    let r = two_server_router();
    let out = r.route_on("nope", "shared").err().unwrap();
    assert!(out.error.unwrap().contains("unknown server 'nope'"));
}

#[test]
fn owner_without_transport_errors() {
    let mut r: Router<&'static str> = Router::new();
    r.register_tools("ghost_server", &names(&["t"])); // registered but no add_server
    let out = r.route("t").err().unwrap();
    assert!(out.error.unwrap().contains(NO_SERVER_PREFIX));
}

#[test]
fn exposes_registry_queries() {
    let r = two_server_router();
    assert_eq!(r.server_for_tool("shared"), Some("a"));
    assert_eq!(r.servers_for_tool("shared"), vec!["a", "b"]);
    assert_eq!(r.collisions().get("shared"), Some(&vec!["a".into(), "b".into()]));
}

#[test]
fn routing_error_messages_are_exact() {
    let r = two_server_router();
    assert_eq!(r.route("ghost").err().unwrap().error.as_deref(), Some("no server found for tool 'ghost'"));
    assert_eq!(
        r.route_on("nope", "shared").err().unwrap().error.as_deref(),
        Some("no server found for tool 'shared': unknown server 'nope'")
    );
}

#[test]
fn later_owner_never_hijacks_and_order_is_kept() {
    let mut reg = ToolRegistry::new();
    reg.register("a", &names(&["t"]));
    reg.register("b", &names(&["t", "u"]));
    reg.register("c", &names(&["t"]));
    reg.register("b", &names(&["t"]));
    assert_eq!(reg.owner("t"), Some("a"));
    assert_eq!(reg.owner("u"), Some("b"));
    assert_eq!(reg.providers("t"), vec!["a", "b", "c"]);
    let c = reg.collisions();
    assert_eq!(c.len(), 1);
    assert!(c.contains_key("t"));
}

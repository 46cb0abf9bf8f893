use biscuits::json::Json;
use biscuits::mcp::{
    build_http_rpc, clean_name, command_rest, connect_config, extract_rpc_result, format_result,
    format_tools, http_config, http_url, keep_recent_lines, mcp_command, parse_browser_discovery,
    plugin_registry, response_id, tail_lines, tool_command, McpCommand, McpRegistry,
};

#[test]
fn plugin_registry_contains_builtins() {
    let names: Vec<&str> = plugin_registry().iter().map(|p| p.name).collect();
    assert!(names.contains(&"biscuit-browser"));
    assert!(names.contains(&"biscuit-gui"));
}

#[test]
fn command_rest_respects_word_boundary() {
    assert_eq!(command_rest("/install foo", "/install"), Some(" foo"));
    assert_eq!(command_rest("/install", "/install"), Some(""));
    assert_eq!(command_rest("/installer", "/install"), None);
    assert_eq!(command_rest("/plugins", "/plugin"), None);
    assert_eq!(command_rest("/plugin start x", "/plugin"), Some(" start x"));
}

fn num(n: u64) -> Json {
    Json::Number(Some(n), n.to_string())
}

fn obj(members: Vec<(&str, Json)>) -> Json {
    let mut m: Vec<(String, Json)> = members.into_iter().map(|(k, v)| (k.to_string(), v)).collect();
    m.sort_by(|a, b| a.0.cmp(&b.0));
    Json::Object(m)
}

fn s(x: &str) -> Json {
    Json::Str(x.to_string())
}

#[test]
fn build_http_rpc_request_has_id() {
    let body = build_http_rpc(Some(7), "tools/list", obj(vec![("a", num(1))]));
    assert_eq!(body.get("jsonrpc").and_then(|v| v.as_str()), Some("2.0"));
    assert_eq!(body.get("id").and_then(|v| v.as_u64()), Some(7));
    assert_eq!(body.get("method").and_then(|v| v.as_str()), Some("tools/list"));
    assert_eq!(body.get("params").and_then(|p| p.get("a")).and_then(|v| v.as_u64()), Some(1));
}

#[test]
fn build_http_rpc_notification_has_no_id() {
    let body = build_http_rpc(None, "notifications/initialized", obj(vec![]));
    assert_eq!(body.get("jsonrpc").and_then(|v| v.as_str()), Some("2.0"));
    assert!(body.get("id").is_none());
    assert_eq!(body.get("method").and_then(|v| v.as_str()), Some("notifications/initialized"));
}

#[test]
fn extract_rpc_result_returns_result() {
    let response = obj(vec![("jsonrpc", s("2.0")), ("id", num(1)), ("result", obj(vec![("tools", Json::Array(vec![]))]))]);
    let result = extract_rpc_result(&response, "tools/list").unwrap();
    assert!(result.get("tools").is_some());
}

#[test]
fn extract_rpc_result_returns_null_when_missing() {
    let response = obj(vec![("jsonrpc", s("2.0")), ("id", num(1))]);
    let result = extract_rpc_result(&response, "ping").unwrap();
    assert!(matches!(result, Json::Null));
}

#[test]
fn extract_rpc_result_surfaces_error() {
    let error = obj(vec![("code", Json::Number(None, "-32601".to_string())), ("message", s("nope"))]);
    let response = obj(vec![("jsonrpc", s("2.0")), ("id", num(1)), ("error", error)]);
    let err = extract_rpc_result(&response, "tools/list").err().unwrap();
    assert!(err.contains("failed"));
    assert!(err.contains("nope"));
    assert_eq!(err, "MCP request 'tools/list' failed: {\"code\":-32601,\"message\":\"nope\"}");
}

#[test]
fn parse_browser_discovery_reads_url_and_token() {
    let text = r#"{"url":"http://127.0.0.1:8765/mcp","token":"deadbeef","port":8765}"#;
    let endpoint = parse_browser_discovery(text).unwrap();
    assert_eq!(endpoint.url, "http://127.0.0.1:8765/mcp");
    assert_eq!(endpoint.token.as_deref(), Some("deadbeef"));
}

#[test]
fn parse_browser_discovery_rejects_empty() {
    assert!(parse_browser_discovery("{}").is_none());
    assert!(parse_browser_discovery(r#"{"url":""}"#).is_none());
    assert!(parse_browser_discovery("not json").is_none());
}

fn parsed(input: &str) -> Option<Result<String, String>> {
    mcp_command(input).map(|r| {
        r.map(|c| match c {
            McpCommand::Help => "help".to_string(),
            McpCommand::Connect(n, c, a) => format!("connect {n}|{c}|{a}"),
            McpCommand::Start(n) => format!("start {n}"),
            McpCommand::Stop(n) => format!("stop {n}"),
            McpCommand::Remove(n) => format!("remove {n}"),
            McpCommand::List => "list".to_string(),
            McpCommand::Tools(s) => format!("tools {s:?}"),
            McpCommand::Call(srv, t, _) => format!("call {srv} {t}"),
            McpCommand::Plugins => "plugins".to_string(),
            McpCommand::Install(n) => format!("install {n}"),
            McpCommand::Uninstall(n) => format!("uninstall {n}"),
        })
    })
}

#[test]
fn mcp_slash_commands_are_parsed() {
    assert_eq!(parsed("/mcp"), Some(Ok("help".to_string())));
    assert_eq!(parsed("/mcp help"), Some(Ok("help".to_string())));
    assert_eq!(parsed("/mcpx"), None);
    assert_eq!(parsed("hello"), None);
    assert_eq!(parsed("/mcp connect fs -- npx server ."), Some(Ok("connect fs|npx server .|true".to_string())));
    assert_eq!(parsed("/mcp add fs"), Some(Err("usage: /mcp connect <name> [--] <command>".to_string())));
    assert_eq!(parsed("/mcp stop"), Some(Err("usage: /mcp stop <name>".to_string())));
    assert_eq!(parsed("/mcp rm fs"), Some(Ok("remove fs".to_string())));
    assert_eq!(parsed("/mcp status"), Some(Ok("list".to_string())));
    assert_eq!(parsed("/mcp tools"), Some(Ok("tools None".to_string())));
    assert_eq!(parsed("/mcp tools fs"), Some(Ok("tools Some(\"fs\")".to_string())));
    assert_eq!(parsed("/mcp call fs read {\"path\":\"a\"}"), Some(Ok("call fs read".to_string())));
    assert_eq!(parsed("/mcp call fs"), Some(Err("usage: /mcp call <server> <tool> [json-arguments]".to_string())));
    assert_eq!(parsed("/mcp fly"), Some(Err("unknown /mcp action: fly".to_string())));
    assert_eq!(parsed("/plugins"), Some(Ok("plugins".to_string())));
    assert_eq!(parsed("/plugins x"), Some(Err("usage: /plugins".to_string())));
    assert_eq!(parsed("/install biscuit-gui"), Some(Ok("install biscuit-gui".to_string())));
    assert_eq!(parsed("/install"), Some(Err("usage: /install <name>".to_string())));
    assert_eq!(parsed("/plugin"), Some(Ok("plugins".to_string())));
    assert_eq!(parsed("/plugin start biscuit-gui"), Some(Ok("start biscuit-gui".to_string())));
    assert_eq!(parsed("/plugin jump"), Some(Err("unknown /plugin action: jump".to_string())));
}

#[test]
fn mcp_tool_arguments_are_read() {
    let args = obj(vec![("action", s("CONNECT")), ("server", s("fs")), ("command", s("npx x")), ("auto_start", Json::Bool(false))]);
    match tool_command(&args) {
        Ok(McpCommand::Connect(n, c, a)) => assert_eq!((n.as_str(), c.as_str(), a), ("fs", "npx x", false)),
        _ => panic!("expected connect"),
    }
    assert!(matches!(tool_command(&obj(vec![])), Ok(McpCommand::List)));
    match tool_command(&obj(vec![("action", s("call")), ("mcp", s("fs")), ("tool_name", s("read"))])) {
        Ok(McpCommand::Call(srv, t, a)) => {
            assert_eq!((srv.as_str(), t.as_str()), ("fs", "read"));
            assert!(matches!(a, Json::Object(ref m) if m.is_empty()));
        }
        _ => panic!("expected call"),
    }
    match tool_command(&obj(vec![("action", s("start"))])) {
        Err(e) => assert_eq!(e, "missing string arg: name/server"),
        Ok(_) => panic!("expected error"),
    }
    match tool_command(&obj(vec![("action", s("dance"))])) {
        Err(e) => assert_eq!(e, "unknown Mcp action: dance"),
        Ok(_) => panic!("expected error"),
    }
}

#[test]
fn server_names_are_checked() {
    assert_eq!(clean_name("  fs-1.x_y "), Ok("fs-1.x_y".to_string()));
    assert_eq!(clean_name("  "), Err("MCP server name cannot be empty".to_string()));
    assert_eq!(clean_name("a b"), Err("MCP server names may only use letters, numbers, _, -, and .".to_string()));
    assert!(connect_config("fs", "   ", true).is_err());
}

#[test]
fn registry_lists_servers_in_name_order() {
    let mut reg = McpRegistry::new(vec![]);
    assert_eq!(reg.render_servers(true, &[]), "none");
    reg.put(connect_config("zeta", " run z ", true).unwrap());
    reg.put(connect_config("alpha", "run a", false).unwrap());
    reg.put(http_config("web", "http://h/mcp", Some("t".to_string())).unwrap());
    let running = vec![("alpha".to_string(), vec!["read".to_string(), "write".to_string()])];
    assert_eq!(
        reg.render_servers(true, &running),
        "- alpha: running; command: run a; tools: read, write\n- web: stopped; http: http://h/mcp\n- zeta: stopped; command: run z"
    );
    assert_eq!(reg.render_servers(false, &running).lines().next(), Some("- alpha: running; command: run a"));
    assert!(reg.remove("zeta"));
    assert!(!reg.remove("zeta"));
    assert_eq!(reg.configs().len(), 2);
    assert_eq!(http_url(reg.get("web").unwrap()), Ok("http://h/mcp".to_string()));
}

#[test]
fn plugins_are_listed_with_their_state() {
    let mut reg = McpRegistry::new(vec!["biscuit-gui".to_string()]);
    assert!(reg.mark_installed("custom"));
    assert!(!reg.mark_installed("custom"));
    let text = reg.render_plugins(&["custom".to_string()]);
    let lines: Vec<&str> = text.lines().collect();
    assert_eq!(lines[0], "Plugins:");
    assert!(lines[1].starts_with("- biscuit-browser [http]: ") && lines[1].ends_with("(available)"));
    assert!(lines[2].starts_with("- biscuit-gui [stdio]: ") && lines[2].ends_with("(installed (stopped))"));
    assert_eq!(lines[3], "- custom (unknown plugin) (running)");
    assert_eq!(reg.saved_plugins(), vec!["biscuit-gui".to_string(), "custom".to_string()]);
    assert!(reg.unmark_installed("custom"));
    assert!(!reg.unmark_installed("custom"));
}

#[test]
fn results_and_tools_are_formatted() {
    let result = obj(vec![("content", Json::Array(vec![obj(vec![("type", s("text")), ("text", s("one"))]), obj(vec![("text", s("two"))])]))]);
    assert_eq!(format_result(&result), "one\ntwo");
    assert_eq!(format_tools("fs", &[]), "fs: no tools discovered");
    let tools = vec![("read".to_string(), "  Read   a file ".to_string()), ("ls".to_string(), " ".to_string())];
    assert_eq!(format_tools("fs", &tools), "fs tools:\n- read: Read a file\n- ls");
}

#[test]
fn response_ids_and_stderr_tails() {
    assert_eq!(response_id(&obj(vec![("id", num(4))])), Some(4));
    assert_eq!(response_id(&obj(vec![("id", s("12"))])), Some(12));
    assert_eq!(response_id(&obj(vec![("id", s("x"))])), None);
    let lines: Vec<String> = (0..25).map(|i| format!("l{i}")).collect();
    assert!(tail_lines(&lines).starts_with("l5\nl6"));
    let mut buf: Vec<String> = (0..100).map(|i| format!("{i}")).collect();
    keep_recent_lines(&mut buf);
    assert_eq!(buf.len(), 80);
    assert_eq!(buf[0], "20");
}

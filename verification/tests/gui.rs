use biscuits::gui::{
    assign_refs, is_actionable, node_label, normalize_role, one_line, snapshot_contains,
    snapshot_signature, snapshot_to_text, AxNode, Snapshot, dispatch_request, handle_line,
    tool_definitions, plan_tool_call, snapshot_to_json, verify_text, GuiActions, GuiCall, LaunchTarget, Routed,
    PROTOCOL_VERSION, SERVER_NAME,
};
use biscuits::json::Json;

fn node(role: &str, title: &str, value: &str) -> AxNode {
    AxNode {
        role: role.to_string(),
        title: title.to_string(),
        value: value.to_string(),
        enabled: true,
        ..AxNode::default()
    }
}

#[test]
fn assigns_refs_only_to_actionable_nodes() {
    let mut nodes = vec![
        node("AXWindow", "win", ""),
        node("AXButton", "OK", ""),
        node("AXStaticText", "hello", ""),
        node("AXTextField", "", "abc"),
    ];
    let count = assign_refs(&mut nodes);
    assert_eq!(count, 2);
    assert_eq!(nodes[0].reference, None);
    assert_eq!(nodes[1].reference.as_deref(), Some("e1"));
    assert_eq!(nodes[2].reference, None);
    assert_eq!(nodes[3].reference.as_deref(), Some("e2"));
}

#[test]
fn assign_refs_clears_stale_refs() {
    let mut nodes = vec![node("AXWindow", "w", ""), node("AXButton", "b", "")];
    nodes[0].reference = Some("e9".to_string());
    assert_eq!(assign_refs(&mut nodes), 1);
    assert_eq!(nodes[0].reference, None);
    assert_eq!(nodes[1].reference.as_deref(), Some("e1"));
    assert_eq!(nodes[1].title, "b");
}

#[test]
fn actionable_matching_is_role_prefix_insensitive() {
    assert!(is_actionable("AXButton"));
    assert!(is_actionable("button"));
    assert!(is_actionable("AXMenuItem"));
    assert!(!is_actionable("AXStaticText"));
    assert!(!is_actionable("AXWindow"));
}

#[test]
fn normalize_role_strips_prefix_and_case() {
    assert_eq!(normalize_role("  AXCheckBox "), "checkbox");
    assert_eq!(normalize_role("Row"), "row");
}

#[test]
fn signature_changes_with_content_and_is_stable() {
    let snap_a = Snapshot {
        nodes: vec![node("AXButton", "OK", "")],
        truncated: false,
    };
    let snap_b = Snapshot {
        nodes: vec![node("AXButton", "Cancel", "")],
        truncated: false,
    };
    let sig_a1 = snapshot_signature(&snap_a);
    let sig_a2 = snapshot_signature(&snap_a);
    let sig_b = snapshot_signature(&snap_b);
    assert_eq!(sig_a1, sig_a2, "same snapshot must hash identically");
    assert_ne!(sig_a1, sig_b, "different content must hash differently");
    assert_eq!(sig_a1.len(), 16);
}

#[test]
fn signature_of_empty_snapshot_is_fnv_offset() {
    let empty = Snapshot::default();
    assert_eq!(snapshot_signature(&empty), "cbf29ce484222325");
}

#[test]
fn signature_matches_fnv1a_reference() {
    let snap = Snapshot {
        nodes: vec![node("AXButton", "OK", "")],
        truncated: false,
    };
    let mut h: u64 = 0xcbf2_9ce4_8422_2325;
    for b in b"AXButton\x1fOK\x1f\x1e" {
        h ^= *b as u64;
        h = h.wrapping_mul(0x0000_0100_0000_01b3);
    }
    assert_eq!(snapshot_signature(&snap), format!("{h:016x}"));
}

#[test]
fn text_view_lists_refs_labels_and_flags() {
    let mut nodes = vec![
        node("AXWindow", "win", ""),
        node("AXButton", "  OK  ", ""),
        node("AXTextField", "", "Sam"),
    ];
    nodes[2].enabled = false;
    nodes[2].focused = true;
    assign_refs(&mut nodes);
    let snap = Snapshot { nodes, truncated: true };
    let text = snapshot_to_text(&snap);
    let sig = snapshot_signature(&snap);
    assert_eq!(
        text,
        format!(
            "[e1] button \"OK\"\n[e2] textfield \"Sam\" (disabled) (focused)\n\
             … (snapshot truncated at element cap)\nsignature: {sig}\n"
        )
    );
}

#[test]
fn text_view_without_actionable_elements() {
    let snap = Snapshot {
        nodes: vec![node("AXWindow", "w", "")],
        truncated: false,
    };
    let text = snapshot_to_text(&snap);
    assert!(text.starts_with("(no actionable elements found)\nsignature: "));
}

#[test]
fn label_prefers_title_then_description_then_value() {
    let mut n = node("AXButton", "  ", "v");
    n.description = "a  long\n description".to_string();
    assert_eq!(node_label(&n), "a long description");
    assert_eq!(one_line("a b c d", 3), "a b…");
}

#[test]
fn contains_is_case_insensitive() {
    let snap = Snapshot {
        nodes: vec![node("AXButton", "Save File", "")],
        truncated: false,
    };
    assert!(snapshot_contains(&snap, "save"));
    assert!(snapshot_contains(&snap, "BUTTON"));
    assert!(snapshot_contains(&snap, ""));
    assert!(!snapshot_contains(&snap, "cancel"));
}

#[test]
fn contains_skips_descriptions() {
    let mut n = node("AXButton", "Save", "");
    n.description = "hidden words".to_string();
    let snap = Snapshot { nodes: vec![n], truncated: false };
    assert!(!snapshot_contains(&snap, "hidden"));
}

fn js(x: &str) -> Json {
    Json::Str(x.to_string())
}

fn num(n: u64) -> Json {
    Json::Number(Some(n), n.to_string())
}

fn obj(members: Vec<(&str, Json)>) -> Json {
    let mut m: Vec<(String, Json)> = members.into_iter().map(|(k, v)| (k.to_string(), v)).collect();
    m.sort_by(|a, b| a.0.cmp(&b.0));
    Json::Object(m)
}

fn at<'a>(v: &'a Json, path: &[&str]) -> &'a Json {
    let mut cur = v;
    for key in path {
        cur = cur.get(key).unwrap_or_else(|| panic!("missing member {key}"));
    }
    cur
}

fn first_text(resp: &Json) -> String {
    let content = at(resp, &["result", "content"]).as_array().unwrap();
    content[0].get("text").unwrap().as_str().unwrap().to_string()
}

/// In-memory fake driver so dispatch_request is testable everywhere.
#[derive(Default)]
struct FakeDriver {
    launched: Option<LaunchTarget>,
    snapshot: Snapshot,
    clicks: Vec<String>,
    typed: Vec<(String, String)>,
}

impl GuiActions for FakeDriver {
    fn launch(&mut self, target: LaunchTarget) -> Result<String, String> {
        self.launched = Some(target.clone());
        Ok(format!("launched {target:?}"))
    }
    fn view(&mut self) -> Result<Snapshot, String> {
        let mut s = Snapshot { nodes: self.snapshot.nodes.clone(), truncated: self.snapshot.truncated };
        assign_refs(&mut s.nodes);
        Ok(s)
    }
    fn click(&mut self, reference: &str) -> Result<String, String> {
        self.clicks.push(reference.to_string());
        Ok(format!("clicked {reference}"))
    }
    fn type_text(&mut self, reference: &str, text: &str) -> Result<String, String> {
        self.typed.push((reference.to_string(), text.to_string()));
        Ok("typed".into())
    }
    fn key(&mut self, combo: &str) -> Result<String, String> {
        Ok(format!("key {combo}"))
    }
    fn screenshot(&mut self) -> Result<String, String> {
        Ok("shot".into())
    }
    fn read_test_contract(&mut self) -> Result<String, String> {
        Err("no test contract".into())
    }
    fn record_result(&mut self, id: &str, pass: bool, _note: &str) -> Result<String, String> {
        Ok(format!("recorded result for '{id}': {}", if pass { "pass" } else { "fail" }))
    }
}

fn reply(req: &Json, driver: &mut FakeDriver) -> Json {
    match dispatch_request(req, driver) {
        Routed::Reply(v) => v,
        Routed::Silent => panic!("expected reply"),
    }
}

#[test]
fn launch_target_parsing_precedence() {
    let by_app = LaunchTarget::from_args(&obj(vec![("app", js("Calculator"))])).unwrap();
    assert_eq!(by_app, LaunchTarget::App("Calculator".into()));

    let by_path = LaunchTarget::from_args(&obj(vec![("path", js("/A.app"))])).unwrap();
    assert_eq!(by_path, LaunchTarget::Path("/A.app".into()));

    let by_id = LaunchTarget::from_args(&obj(vec![("bundle_id", js("com.x"))])).unwrap();
    assert_eq!(by_id, LaunchTarget::BundleId("com.x".into()));

    // bundle_id wins over the others.
    let mixed = LaunchTarget::from_args(&obj(vec![
        ("app", js("A")),
        ("path", js("/B.app")),
        ("bundle_id", js("com.c")),
    ]))
    .unwrap();
    assert_eq!(mixed, LaunchTarget::BundleId("com.c".into()));

    assert!(LaunchTarget::from_args(&obj(vec![])).is_err());
    assert!(LaunchTarget::from_args(&obj(vec![("app", js("  "))])).is_err());
}

#[test]
fn initialize_returns_protocol_and_server_info() {
    let mut driver = FakeDriver::default();
    let req = obj(vec![("jsonrpc", js("2.0")), ("id", num(1)), ("method", js("initialize")), ("params", obj(vec![]))]);
    let resp = reply(&req, &mut driver);
    assert_eq!(at(&resp, &["id"]).as_u64(), Some(1));
    assert_eq!(at(&resp, &["result", "protocolVersion"]).as_str(), Some(PROTOCOL_VERSION));
    assert_eq!(at(&resp, &["result", "serverInfo", "name"]).as_str(), Some(SERVER_NAME));
}

#[test]
fn notifications_get_no_reply() {
    let mut driver = FakeDriver::default();
    let req = obj(vec![("jsonrpc", js("2.0")), ("method", js("notifications/initialized"))]);
    assert!(matches!(dispatch_request(&req, &mut driver), Routed::Silent));
}

#[test]
fn tools_list_advertises_all_tools() {
    let mut driver = FakeDriver::default();
    let req = obj(vec![("jsonrpc", js("2.0")), ("id", num(2)), ("method", js("tools/list"))]);
    let resp = reply(&req, &mut driver);
    let tools = at(&resp, &["result", "tools"]).as_array().unwrap();
    let names: Vec<&str> = tools.iter().filter_map(|t| t.get("name").and_then(|n| n.as_str())).collect();
    for expected in [
        "gui_launch",
        "gui_view",
        "gui_click",
        "gui_type",
        "gui_key",
        "gui_screenshot",
        "gui_verify",
        "get_test_contract",
        "report_result",
    ] {
        assert!(names.contains(&expected), "missing tool {expected}");
    }
    // Every tool has an object inputSchema.
    for tool in tools {
        assert_eq!(at(tool, &["inputSchema", "type"]).as_str(), Some("object"));
    }
}

#[test]
fn tools_call_gui_click_dispatches() {
    let mut driver = FakeDriver::default();
    let req = obj(vec![
        ("jsonrpc", js("2.0")),
        ("id", num(3)),
        ("method", js("tools/call")),
        ("params", obj(vec![("name", js("gui_click")), ("arguments", obj(vec![("ref", js("e7"))]))])),
    ]);
    let resp = reply(&req, &mut driver);
    assert_eq!(at(&resp, &["result", "isError"]).as_bool(), Some(false));
    assert_eq!(driver.clicks, vec!["e7".to_string()]);
}

#[test]
fn tools_call_missing_arg_is_error_not_panic() {
    let mut driver = FakeDriver::default();
    let req = obj(vec![
        ("jsonrpc", js("2.0")),
        ("id", num(4)),
        ("method", js("tools/call")),
        ("params", obj(vec![("name", js("gui_click")), ("arguments", obj(vec![]))])),
    ]);
    let resp = reply(&req, &mut driver);
    assert_eq!(at(&resp, &["result", "isError"]).as_bool(), Some(true));
    let text = first_text(&resp);
    assert!(text.contains("missing string arg: ref"));
}

#[test]
fn unknown_method_returns_jsonrpc_error() {
    let mut driver = FakeDriver::default();
    let req = obj(vec![("jsonrpc", js("2.0")), ("id", num(5)), ("method", js("no/such"))]);
    let resp = reply(&req, &mut driver);
    match at(&resp, &["error", "code"]) {
        Json::Number(_, text) => assert_eq!(text, "-32601"),
        _ => panic!("expected a number"),
    }
}

#[test]
fn gui_verify_checks_ax_tree() {
    let mut driver = FakeDriver {
        snapshot: Snapshot { nodes: vec![node("AXStaticText", "Total: 42", "")], truncated: false },
        ..Default::default()
    };
    let pass = obj(vec![
        ("jsonrpc", js("2.0")),
        ("id", num(6)),
        ("method", js("tools/call")),
        ("params", obj(vec![("name", js("gui_verify")), ("arguments", obj(vec![("expect", js("Total: 42"))]))])),
    ]);
    let resp = reply(&pass, &mut driver);
    let text = first_text(&resp);
    assert!(text.contains("PASS"), "got: {text}");

    let fail = obj(vec![
        ("jsonrpc", js("2.0")),
        ("id", num(7)),
        ("method", js("tools/call")),
        ("params", obj(vec![("name", js("gui_verify")), ("arguments", obj(vec![("expect", js("nope"))]))])),
    ]);
    let resp = reply(&fail, &mut driver);
    let text = first_text(&resp);
    assert!(text.contains("FAIL"), "got: {text}");
}

#[test]
fn serve_with_processes_a_full_session() {
    let mut driver = FakeDriver::default();
    let input = [
        "{\"jsonrpc\":\"2.0\",\"id\":1,\"method\":\"initialize\",\"params\":{}}\n",
        "{\"jsonrpc\":\"2.0\",\"method\":\"notifications/initialized\"}\n",
        "{\"jsonrpc\":\"2.0\",\"id\":2,\"method\":\"tools/list\"}\n",
        "\n",
        "not json at all\n",
        "{\"jsonrpc\":\"2.0\",\"id\":3,\"method\":\"tools/call\",\"params\":{\"name\":\"gui_key\",\"arguments\":{\"combo\":\"cmd+s\"}}}\n",
    ]
    .join("");
    let mut text = String::new();
    for line in input.lines() {
        if let Some(out) = handle_line(line, &mut driver) {
            text.push_str(&out);
            text.push('\n');
        }
    }
    // One line per request that has an id (3 of them); the notification, the
    // blank line and the junk line produce no output.
    let lines: Vec<&str> = text.lines().collect();
    assert_eq!(lines.len(), 3, "got: {text}");
    let first: serde_json::Value = serde_json::from_str(lines[0]).unwrap();
    assert_eq!(first["id"], 1);
    assert_eq!(first["result"]["protocolVersion"], PROTOCOL_VERSION);
    let third: serde_json::Value = serde_json::from_str(lines[2]).unwrap();
    assert_eq!(third["id"], 3);
    assert_eq!(third["result"]["isError"], false);
}

#[test]
fn tool_catalogue_lists_required_arguments() {
    let defs = tool_definitions();
    let tools = defs.as_array().unwrap();
    assert_eq!(tools.len(), 9);
    let click = &tools[2];
    assert_eq!(click.get("name").unwrap().as_str(), Some("gui_click"));
    let required = at(click, &["inputSchema", "required"]).as_array().unwrap();
    assert_eq!(required[0].as_str(), Some("ref"));
    assert!(at(&tools[0], &["inputSchema"]).get("required").is_none());
}

#[test]
fn report_result_needs_a_boolean_pass() {
    let args = obj(vec![("id", js("case-1")), ("pass", js("yes"))]);
    match plan_tool_call("report_result", &args) {
        Err(e) => assert_eq!(e, "report_result requires a boolean 'pass'"),
        Ok(_) => panic!("expected refusal"),
    }
    let args = obj(vec![("id", js("case-1")), ("pass", Json::Bool(true))]);
    match plan_tool_call("report_result", &args) {
        Ok(GuiCall::Report(id, pass, note)) => {
            assert_eq!(id, "case-1");
            assert!(pass);
            assert_eq!(note, "");
        }
        _ => panic!("expected a report"),
    }
    match plan_tool_call("gui_fly", &obj(vec![])) {
        Err(e) => assert_eq!(e, "unknown tool: gui_fly"),
        Ok(_) => panic!("expected refusal"),
    }
}

#[test]
fn verify_text_quotes_the_expectation() {
    assert_eq!(verify_text(true, "a\"b"), "verify: PASS (expected: \"a\\\"b\")");
    assert_eq!(verify_text(false, "x"), "verify: FAIL (expected: \"x\")");
}

#[test]
fn snapshot_to_json_lists_only_refs() {
    let mut nodes = vec![
        node("AXWindow", "win", ""),
        node("AXButton", "OK", ""),
        node("AXTextField", "Name", "Sam"),
    ];
    assign_refs(&mut nodes);
    let snap = Snapshot { nodes, truncated: false };
    let value = snapshot_to_json(&snap);
    assert_eq!(value.get("actionable_count").and_then(|v| v.as_u64()), Some(2));
    assert_eq!(value.get("total_nodes").and_then(|v| v.as_u64()), Some(3));
    let elements = value.get("elements").and_then(|v| v.as_array()).unwrap();
    assert_eq!(elements.len(), 2);
    assert_eq!(elements[0].get("ref").and_then(|v| v.as_str()), Some("e1"));
    assert_eq!(elements[1].get("value").and_then(|v| v.as_str()), Some("Sam"));
    assert!(value.get("signature").and_then(|v| v.as_str()).is_some());
}

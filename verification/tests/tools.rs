use biscuits::json::Json;
use biscuits::permissions::{
    approval_choice, call_target, classify, switch_choice, Action, Approval, GateStep, Mode, PermissionGuard,
};
use biscuits::tools::{brief, parse_calls, ToolCall};

fn s(text: &str) -> Json {
    Json::Str(text.to_string())
}

fn obj(members: Vec<(&str, Json)>) -> Json {
    Json::Object(members.into_iter().map(|(k, v)| (k.to_string(), v)).collect())
}

fn call(tool: &str, args: Json) -> ToolCall {
    ToolCall { tool: tool.to_string(), args }
}

#[test]
fn parses_tool_call_blocks_in_order() {
    let text = "let me look\n<tool_call>{\"tool\":\"Read\",\"args\":{\"path\":\"a.rs\"}}</tool_call>\n<tool_call> {\"name\":\"Bash\",\"args\":{\"command\":\"ls\"}} </tool_call>";
    let parsed = parse_calls(text);
    assert!(parsed.errors.is_empty());
    assert_eq!(parsed.calls.len(), 2);
    assert_eq!(parsed.calls[0].tool, "Read");
    assert_eq!(parsed.calls[0].args.get("path").and_then(|v| v.as_str()), Some("a.rs"));
    assert_eq!(parsed.calls[1].tool, "Bash");
}

#[test]
fn malformed_blocks_become_errors_not_failures() {
    let text = "<tool_call>{not json}</tool_call><tool_call>{\"args\":{}}</tool_call><tool_call>{\"tool\":\"Glob\"}</tool_call>";
    let parsed = parse_calls(text);
    assert_eq!(parsed.calls.len(), 1);
    assert_eq!(parsed.calls[0].tool, "Glob");
    assert!(matches!(parsed.calls[0].args, Json::Null));
    assert_eq!(parsed.errors.len(), 2);
    assert_eq!(parsed.errors[1], "tool call missing tool/name");
}

#[test]
fn reads_a_tool_calls_array_and_a_bare_object() {
    let parsed = parse_calls("<tool_calls>[{\"tool\":\"Read\"},{\"tool\":\"Grep\"}]</tool_calls>");
    assert_eq!(parsed.calls.len(), 2);
    assert_eq!(parsed.calls[1].tool, "Grep");
    let bare = parse_calls("  {\"tool\": \"Bash\", \"args\": {\"command\": \"pwd\"}}  ");
    assert_eq!(bare.calls.len(), 1);
    assert_eq!(bare.calls[0].tool, "Bash");
    let none = parse_calls("just an answer, no tools");
    assert!(none.calls.is_empty() && none.errors.is_empty());
}

#[test]
fn brief_keeps_twelve_lines_and_1200_chars() {
    let text: String = (1..=20).map(|i| format!("line {i}\n")).collect();
    let b = brief(&text);
    assert_eq!(b.lines().count(), 12);
    assert!(b.ends_with("line 12"));
    let long = "x".repeat(1300);
    let b = brief(&long);
    assert_eq!(b.chars().count(), 1203);
    assert!(b.ends_with("..."));
}

#[test]
fn activity_titles_name_the_target() {
    assert_eq!(call("bash", obj(vec![("command", s("cargo   test\n--all"))])).activity_title(), "Bash: cargo test --all");
    assert_eq!(call("Read", obj(vec![("path", s("src/main.rs"))])).activity_title(), "Read: src/main.rs");
    assert_eq!(call("Read", obj(vec![])).activity_title(), "Read");
    assert_eq!(call("mcp", obj(vec![("action", s("list"))])).activity_title(), "Mcp: list");
    assert_eq!(call("computer_use", obj(vec![("type", s("click"))])).activity_title(), "ComputerUse: click");
    assert_eq!(call("Other", obj(vec![])).activity_title(), "Other");
    let long = "a ".repeat(100);
    let t = call("Bash", obj(vec![("command", s(&long))])).activity_title();
    assert!(t.ends_with("..."));
    assert_eq!(t.chars().count(), "Bash: ".len() + 96 + 3);
}

#[test]
fn activity_detail_shows_args_and_the_bash_command() {
    let d = call("Bash", obj(vec![("command", s("ls"))])).activity_detail();
    assert_eq!(d, "tool: Bash\nargs:\n{\n  \"command\": \"ls\"\n}\n\nbash command:\nls");
    assert!(call("AskUserQuestion", Json::Null).needs_user_input());
    assert!(!call("Read", Json::Null).needs_user_input());
}

#[test]
fn classifies_calls_for_the_matrix() {
    assert_eq!(classify(&call("Read", Json::Null)), Action::ReadFile);
    assert_eq!(classify(&call("write", obj(vec![("overwrite", Json::Bool(true))]))), Action::WriteFile);
    assert_eq!(classify(&call("write", obj(vec![]))), Action::CreateFile);
    assert_eq!(classify(&call("bash", obj(vec![("command", s("sudo rm x"))]))), Action::RunAdminCmd);
    assert_eq!(classify(&call("bash", obj(vec![("command", s("git status"))]))), Action::RunReadonlyCmd);
    assert_eq!(classify(&call("monitor", obj(vec![]))), Action::RunReadonlyCmd);
    assert_eq!(classify(&call("monitor", obj(vec![("command", s("npm run dev"))]))), Action::RunProjectCmd);
    assert_eq!(classify(&call("computer-use", obj(vec![("action", s("Screenshot"))]))), Action::ComputerView);
    assert_eq!(classify(&call("mcp", obj(vec![("action", s("call"))]))), Action::UseMcp);
    assert_eq!(classify(&call("unknown", Json::Null)), Action::UseApi);
}

#[test]
fn targets_name_what_a_call_acts_on() {
    assert_eq!(call_target(&call("mcp", obj(vec![("server", s("fs")), ("name", s("read"))]))), "fs/read");
    assert_eq!(call_target(&call("monitor", obj(vec![("action", s("start")), ("command", s("x"))]))), "start x");
    assert_eq!(call_target(&call("custom", obj(vec![("first", s("one")), ("second", s("two"))]))), "one");
}

#[test]
fn gate_allows_blocks_and_asks() {
    let mut g = PermissionGuard::new(Mode::Assisted, "/w/.biscuits/permissions.json".to_string());
    assert!(matches!(g.gate(&call("Read", Json::Null), "t1"), GateStep::Allowed));
    assert_eq!(g.log.len(), 1);
    let edit = call("Edit", obj(vec![("path", s("a.rs"))]));
    assert!(matches!(g.gate(&edit, "t2"), GateStep::NeedsAnswer(Action::WriteFile)));
    assert_eq!(g.log.len(), 1);
    assert!(edit.needs_permission_input(&g));
    assert_eq!(g.answer(&edit, "t2", Approval::Always), Ok(()));
    assert!(!edit.needs_permission_input(&g));
    assert!(matches!(g.gate(&edit, "t3"), GateStep::Allowed));
    match g.gate(&call("bash", obj(vec![("command", s("sudo ls"))])), "t4") {
        GateStep::Refused(m) => assert_eq!(m, "action blocked: Run admin/sudo command is never allowed in Assisted mode"),
        _ => panic!("expected refusal"),
    }
    let write = call("Write", obj(vec![("path", s("b.rs"))]));
    assert_eq!(g.answer(&write, "t5", Approval::Deny), Err("action denied by user: Create file".to_string()));
    assert_eq!(g.answer(&write, "t6", Approval::Switch(Some(Mode::Auto))), Ok(()));
    assert_eq!(g.mode, Mode::Auto);
    assert!(g.save_pending);
    g.stop_requested = true;
    match g.gate(&call("Read", Json::Null), "t7") {
        GateStep::Refused(m) => assert_eq!(m, "agent stopped by user"),
        _ => panic!("expected refusal"),
    }
}

#[test]
fn reads_prompt_answers() {
    assert_eq!(approval_choice(" 2 "), Approval::Always);
    assert_eq!(approval_choice("ALLOW"), Approval::Once);
    assert_eq!(approval_choice("nope"), Approval::Deny);
    assert_eq!(approval_choice("4"), Approval::Switch(None));
    assert_eq!(switch_choice("auto"), Some(Mode::Auto));
    assert_eq!(switch_choice("9"), None);
}

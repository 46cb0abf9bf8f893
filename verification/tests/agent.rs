use biscuits::agent::{join_sections, sanitize_label, synthesize_plan_text, TurnCapture};
use biscuits::json::Json;
use biscuits::tools::{parse_calls, ToolCall};

fn obj(members: Vec<(&str, Json)>) -> Json {
    Json::Object(members.into_iter().map(|(k, v)| (k.to_string(), v)).collect())
}

#[test]
fn synthesize_plan_text_roundtrips_through_parse_calls() {
    let calls = vec![
        ToolCall { tool: "read".into(), args: obj(vec![("path", Json::Str("a.rs".into()))]) },
        ToolCall { tool: "bash".into(), args: obj(vec![("command", Json::Str("ls".into()))]) },
    ];
    let text = synthesize_plan_text("let me look", &calls);
    let parsed = parse_calls(&text);
    assert!(parsed.errors.is_empty());
    assert_eq!(parsed.calls.len(), 2);
    assert_eq!(parsed.calls[0].tool, "read");
    assert_eq!(parsed.calls[0].args.get("path").and_then(|v| v.as_str()), Some("a.rs"));
    assert_eq!(parsed.calls[1].tool, "bash");
}

#[test]
fn synthesize_plan_text_empty_when_nothing_to_say() {
    assert_eq!(synthesize_plan_text("", &[]), "");
}

#[test]
fn synthesize_plan_text_writes_one_block_per_line() {
    let calls = vec![ToolCall { tool: "Glob".into(), args: obj(vec![("pattern", Json::Str("*.rs".into()))]) }];
    assert_eq!(
        synthesize_plan_text("  ", &calls),
        "<tool_call>{\"args\":{\"pattern\":\"*.rs\"},\"tool\":\"Glob\"}</tool_call>"
    );
    assert_eq!(
        synthesize_plan_text(" plan ", &calls),
        "plan\n<tool_call>{\"args\":{\"pattern\":\"*.rs\"},\"tool\":\"Glob\"}</tool_call>"
    );
}

#[test]
fn sections_skip_blanks() {
    assert_eq!(join_sections(&[" a ", "", "  \n", "b"]), "a\n\nb");
    assert_eq!(join_sections(&[]), "");
}

#[test]
fn labels_become_folder_names() {
    assert_eq!(sanitize_label("fix the bug!"), "fix-the-bug-");
    assert_eq!(sanitize_label(&"x".repeat(50)).len(), 40);
}

#[test]
fn a_new_capture_is_empty() {
    let c = TurnCapture::default();
    assert!(c.ordered_tool_calls.is_empty() && c.tool_results.is_empty() && c.errors.is_empty());
    assert_eq!(c.loop_count, 0);
    assert_eq!(c.runtime_ms, 0);
}

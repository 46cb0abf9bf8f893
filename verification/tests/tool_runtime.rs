use biscuits::json::Json;
use biscuits::tool_runtime::{
    answer_text, bash_report, bash_timeout, clean_url, edit_report, edit_text, fetch_report, grep_hit,
    html_unescape, monitor_report, monitor_request, monitor_summary, observe_target, read_report,
    search_results, search_url, strip_html, tool_instructions, tool_kind, grep_text, write_allowed, write_report, MonitorRequest,
    ObserveTarget, ToolKind,
};

fn obj(members: Vec<(&str, Json)>) -> Json {
    let mut m: Vec<(String, Json)> = members.into_iter().map(|(k, v)| (k.to_string(), v)).collect();
    m.sort_by(|a, b| a.0.cmp(&b.0));
    Json::Object(m)
}

fn js(s: &str) -> Json {
    Json::Str(s.to_string())
}

fn num(n: u64) -> Json {
    Json::Number(Some(n), n.to_string())
}

#[test]
fn tool_names_are_read_in_any_case() {
    assert_eq!(tool_kind("Read"), ToolKind::Read);
    assert_eq!(tool_kind("BASH"), ToolKind::Bash);
    assert_eq!(tool_kind("observation"), ToolKind::Observe);
    assert_eq!(tool_kind("Computer Use"), ToolKind::ComputerUse);
    assert_eq!(tool_kind("computer-use"), ToolKind::ComputerUse);
    assert_eq!(tool_kind("AskUserQuestion"), ToolKind::AskUser);
    assert_eq!(tool_kind("WebFetch"), ToolKind::WebFetch);
    assert_eq!(tool_kind("teleport"), ToolKind::Unknown);
}

#[test]
fn observe_target_prefers_target_then_kind() {
    let (t, name) = observe_target(&obj(vec![("target", js("Diff"))]));
    assert_eq!(t, ObserveTarget::Changes);
    assert_eq!(name, "diff");
    let (t, _) = observe_target(&obj(vec![("kind", js("shell"))]));
    assert_eq!(t, ObserveTarget::Terminal);
    let (t, name) = observe_target(&obj(vec![]));
    assert_eq!(t, ObserveTarget::Screen);
    assert_eq!(name, "screen");
    let (t, _) = observe_target(&obj(vec![("target", js("moon"))]));
    assert_eq!(t, ObserveTarget::Unknown);
}

#[test]
fn bash_timeout_defaults_and_caps() {
    assert_eq!(bash_timeout(&obj(vec![])), 60);
    assert_eq!(bash_timeout(&obj(vec![("timeout_secs", num(5))])), 5);
    assert_eq!(bash_timeout(&obj(vec![("timeout_secs", num(5000))])), 600);
}

#[test]
fn edit_replaces_a_single_occurrence() {
    let (t, n) = edit_text("let x = 1;\nlet y = 2;\n", "y = 2", "y = 3", false).unwrap();
    assert_eq!(t, "let x = 1;\nlet y = 3;\n");
    assert_eq!(n, 1);
}

#[test]
fn edit_refuses_missing_and_ambiguous_text() {
    assert_eq!(edit_text("abc", "zz", "y", false).unwrap_err(), "old text not found");
    assert_eq!(
        edit_text("a a a", "a", "b", false).unwrap_err(),
        "old text matched 3 times; pass replace_all=true or make it more precise"
    );
}

#[test]
fn edit_replace_all_counts_every_occurrence() {
    let (t, n) = edit_text("a a a", "a", "b", true).unwrap();
    assert_eq!(t, "b b b");
    assert_eq!(n, 3);
    let (t, n) = edit_text("aaaa", "aa", "x", true).unwrap();
    assert_eq!(t, "xx");
    assert_eq!(n, 2);
}

#[test]
fn edit_with_empty_old_text() {
    assert_eq!(
        edit_text("ab", "", "-", true).unwrap(),
        ("-a-b-".to_string(), 3)
    );
    assert_eq!(
        edit_text("ab", "", "-", false).unwrap_err(),
        "old text matched 3 times; pass replace_all=true or make it more precise"
    );
    assert_eq!(edit_text("", "", "x", false).unwrap(), ("x".to_string(), 1));
}

#[test]
fn reports_name_path_and_size() {
    assert_eq!(read_report("a.txt", 5, "hello", 100), "Read a.txt (5 bytes)\nhello");
    assert_eq!(read_report("a.txt", 11, "hello world", 5), "Read a.txt (11 bytes)\nhello...");
    assert_eq!(write_report("b.rs", 42), "Wrote b.rs (42 bytes)");
    assert_eq!(edit_report("c.rs", 2), "Edited c.rs (2 replacement(s))");
    assert_eq!(grep_hit("src/x.rs", 7, "   fn main() {  "), "src/x.rs:7: fn main() {");
}

#[test]
fn write_needs_overwrite_for_existing_files() {
    assert!(write_allowed(false, false).is_ok());
    assert!(write_allowed(true, true).is_ok());
    assert_eq!(
        write_allowed(true, false).unwrap_err(),
        "file exists; pass overwrite=true or use Edit"
    );
}

#[test]
fn bash_report_lists_the_outcome() {
    let r = bash_report("ls", "exit status: 0", false, "a\nb\n", "");
    assert!(r.starts_with("command: ls\nstatus: exit status: 0\ntimed_out: false\nstdout:\na\nb\n"));
    let r = bash_report("sleep 9", "killed", true, "", "");
    assert!(r.contains("timed_out: true"));
}

#[test]
fn monitor_requests_from_arguments() {
    match monitor_request(&obj(vec![("command", js("tail -f log"))])).unwrap() {
        MonitorRequest::Start(c) => assert_eq!(c, "tail -f log"),
        _ => panic!("expected a start"),
    }
    match monitor_request(&obj(vec![("id", num(3))])).unwrap() {
        MonitorRequest::Read(id) => assert_eq!(id, 3),
        _ => panic!("expected a read"),
    }
    match monitor_request(&obj(vec![("action", js("stop")), ("id", num(4))])).unwrap() {
        MonitorRequest::Stop(id) => assert_eq!(id, 4),
        _ => panic!("expected a stop"),
    }
    match monitor_request(&obj(vec![("action", js("start"))])) {
        Err(e) => assert_eq!(e, "missing string arg: command"),
        Ok(_) => panic!("expected an error"),
    }
    match monitor_request(&obj(vec![("action", js("pause"))])) {
        Err(e) => assert_eq!(e, "unknown monitor action: pause"),
        Ok(_) => panic!("expected an error"),
    }
}

#[test]
fn monitor_texts() {
    assert_eq!(
        monitor_report(2, "make", "running", &vec![]),
        "monitor 2\ncommand: make\nstatus: running\noutput:\n(no new output)"
    );
    assert_eq!(
        monitor_report(2, "make", "exited", &vec!["a".to_string(), "b".to_string()]),
        "monitor 2\ncommand: make\nstatus: exited\noutput:\na\nb"
    );
    assert_eq!(
        monitor_summary(&vec![(1, "make".to_string()), (5, "tail".to_string())]),
        "1: make\n5: tail"
    );
    assert_eq!(monitor_summary(&vec![]), "");
}

#[test]
fn answers_pick_choices_by_number() {
    let choices = vec!["red".to_string(), "blue".to_string()];
    assert_eq!(answer_text(" 2 ", &choices), "user selected: blue");
    assert_eq!(answer_text("0", &choices), "user selected: red");
    assert_eq!(answer_text("3", &choices), "user answered: 3");
    assert_eq!(answer_text(" green ", &choices), "user answered: green");
}

#[test]
fn entities_are_decoded() {
    assert_eq!(html_unescape("a &amp; b &lt;c&gt; &quot;d&quot; &#39;e&#39;"), "a & b <c> \"d\" 'e'");
    assert_eq!(html_unescape("&amp;lt;"), "<");
}

#[test]
fn pages_are_stripped_to_text() {
    let html = "<html><head><style>p{}</style><script>var x=1;</script></head>\n<body><p>Hi &amp; bye</p>\n\n<b>now</b></body></html>";
    assert_eq!(strip_html(html), "Hi & bye now");
    assert_eq!(
        fetch_report("https://e.org/", "<p>hello world</p>", 5),
        "url: https://e.org/\n\nhello..."
    );
}

#[test]
fn redirect_links_are_followed() {
    assert_eq!(
        clean_url("//duckduckgo.com/l/?uddg=https%3A%2F%2Fexample.com%2Fa&rut=abc"),
        "https://example.com/a"
    );
    assert_eq!(clean_url("https://plain.org/x"), "https://plain.org/x");
}

#[test]
fn search_address_encodes_the_query() {
    assert_eq!(search_url("rust verus"), "https://duckduckgo.com/html/?q=rust%20verus");
}

#[test]
fn search_results_are_listed() {
    let html = "<div><a rel=\"nofollow\" class=\"result__a\" href=\"//duckduckgo.com/l/?uddg=https%3A%2F%2Fa.org%2F&amp;rut=1\">A <b>site</b></a></div>\
<div><a class=\"result__a\" href=\"https://b.org/\">B</a></div>";
    assert_eq!(search_results(html, 5), "- A site\n  https://a.org/\n- B\n  https://b.org/");
    assert_eq!(search_results(html, 1), "- A site\n  https://a.org/");
    assert_eq!(search_results("<p>nothing</p>", 5), "no web search results parsed");
}

#[test]
fn tool_instructions_name_the_workspace_and_append_the_prompts() {
    let text = tool_instructions("/work", "OBS", "MCP", "GOAL");
    assert!(text.starts_with("<tool_instructions>\nYou have workspace tools for: /work\nWhen a tool is needed"));
    assert!(text.contains("- Read: {\"path\":\"relative/file\",\"max_bytes\":20000}"));
    assert!(text.ends_with("</tool_instructions>\n\nOBS\n\nMCP\n\nGOAL"));
}

#[test]
fn grep_picks_matching_lines_up_to_the_room() {
    let text = "fn main() {\r\n    let x = 1;\n}\nfn other() {}\n";
    assert_eq!(grep_text("src/a.rs", text, "^fn ", 10), vec!["src/a.rs:1: fn main() {", "src/a.rs:4: fn other() {}"]);
    assert_eq!(grep_text("src/a.rs", text, "^fn ", 1), vec!["src/a.rs:1: fn main() {"]);
    assert_eq!(grep_text("src/a.rs", text, "^fn ", 0), vec!["src/a.rs:1: fn main() {"]);
    assert!(grep_text("src/a.rs", text, "nothing", 10).is_empty());
    assert!(grep_text("src/a.rs", text, "(", 10).is_empty());
}

use biscuits::agent::TurnCapture;
use biscuits::evals::{
    capture_data, check_output, grade, looks_like_refusal, sanitize_name, tool_failure, tool_mode_name,
    tools_match_exec, OutputMatcher, ToolMatchMode,
};

fn names(xs: &[&str]) -> Vec<String> {
    xs.iter().map(|s| s.to_string()).collect()
}

#[test]
fn tool_modes_compare_names_without_case() {
    let expected = names(&["Read", "Edit"]);
    let actual = names(&["read", "grep", "EDIT"]);
    assert!(tools_match_exec(&expected, ToolMatchMode::Subsequence, &actual));
    assert!(!tools_match_exec(&expected, ToolMatchMode::ExactOrderedSequence, &actual));
    assert!(tools_match_exec(&expected, ToolMatchMode::ExactOrderedSequence, &names(&["read", "edit"])));
    assert!(tools_match_exec(&expected, ToolMatchMode::ContainsAll, &names(&["edit", "read"])));
    assert!(!tools_match_exec(&expected, ToolMatchMode::Subsequence, &names(&["edit", "read"])));
    assert!(tools_match_exec(&expected, ToolMatchMode::ContainsAny, &names(&["bash", "edit"])));
    assert!(!tools_match_exec(&expected, ToolMatchMode::ContainsAny, &names(&["bash"])));
    assert_eq!(ToolMatchMode::default(), ToolMatchMode::Subsequence);
}

#[test]
fn tool_failure_names_both_sequences() {
    assert!(tool_failure(&[], ToolMatchMode::ContainsAll, &names(&["x"])).is_none());
    let f = tool_failure(&names(&["Read"]), ToolMatchMode::ContainsAll, &names(&["Bash"])).unwrap();
    assert_eq!(f, "tool sequence mismatch expected [\"Read\"] mode contains_all got [\"Bash\"]");
    assert_eq!(tool_mode_name(ToolMatchMode::ExactOrderedSequence), "exact_ordered_sequence");
}

#[test]
fn output_matchers_nest() {
    let m = OutputMatcher::All {
        matchers: vec![
            OutputMatcher::ContainsSubstring { value: "ok".into() },
            OutputMatcher::AnyOf {
                matchers: vec![
                    OutputMatcher::Regex { value: "^d+$".into() },
                    OutputMatcher::MustNotContainSubstring { value: "error".into() },
                ],
            },
        ],
    };
    assert!(check_output(&m, "all ok"));
    assert!(!check_output(&m, "ok but error"));
    assert!(!check_output(&m, "fine"));
    assert!(check_output(&OutputMatcher::default(), "anything"));
    assert!(check_output(&OutputMatcher::Regex { value: "\\d{3}".into() }, "code 404"));
    assert!(!check_output(&OutputMatcher::Regex { value: "(".into() }, "("));
    assert!(!check_output(&OutputMatcher::AnyOf { matchers: vec![] }, "x"));
    assert!(check_output(&OutputMatcher::All { matchers: vec![] }, "x"));
}

#[test]
fn refusals_and_names() {
    assert!(looks_like_refusal("Sorry, I CAN'T do that."));
    assert!(!looks_like_refusal("Done."));
    assert_eq!(sanitize_name("my case #1"), "my-case--1");
}

#[test]
fn grading_collects_every_reason() {
    let mut capture = TurnCapture::default();
    capture.ordered_tool_calls = names(&["Bash"]);
    capture.final_message = "here you go".into();
    capture.errors = names(&["boom"]);
    let reasons = grade(
        &names(&["Read"]),
        ToolMatchMode::Subsequence,
        &OutputMatcher::ContainsSubstring { value: "done".into() },
        true,
        &capture,
    );
    assert_eq!(reasons.len(), 4);
    assert!(reasons[0].starts_with("tool sequence mismatch"));
    assert_eq!(reasons[1], "assistant output matcher failed");
    assert_eq!(reasons[2], "expected refusal but response did not look like one");
    assert_eq!(reasons[3], "runtime error: boom");
    let data = capture_data("use sk-abcdefghijklmnop please", capture);
    assert!(data.prompt.contains("[REDACTED_SECRET]"));
    assert_eq!(data.ordered_tool_calls, names(&["Bash"]));
}

fn outcomes(v: &[(&str, bool)]) -> Vec<(String, bool)> {
    v.iter().map(|(n, p)| (n.to_string(), *p)).collect()
}

#[test]
fn report_changes_are_classified_by_name() {
    let prev = outcomes(&[("b", true), ("a", false), ("c", false), ("gone", true)]);
    let curr = outcomes(&[("a", true), ("b", false), ("c", false), ("new", false)]);
    let d = biscuits::evals::pass_changes(&prev, &curr);
    assert_eq!(d.newly_failing, vec!["b".to_string()]);
    assert_eq!(d.newly_passing, vec!["a".to_string()]);
    assert_eq!(d.still_failing, vec!["c".to_string()]);
}

#[test]
fn later_outcomes_of_a_case_win() {
    let prev = outcomes(&[("a", true)]);
    let curr = outcomes(&[("a", false), ("a", true)]);
    let d = biscuits::evals::pass_changes(&prev, &curr);
    assert!(d.newly_failing.is_empty());
}

#[test]
fn baseline_regressions_are_passing_cases_that_fail_now() {
    let baseline = outcomes(&[("a", true), ("b", true), ("c", false), ("d", true)]);
    let curr = outcomes(&[("a", false), ("b", true), ("c", false)]);
    assert_eq!(biscuits::evals::baseline_regressions(&baseline, &curr), vec!["a".to_string()]);
}

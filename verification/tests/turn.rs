use biscuits::memory::{after_turn_plan, MemoryMode, PrivacyMode};
use biscuits::turn::{turn_context, turn_start, turn_step, TurnAction, TurnEvent, ANSWER_NOTE, MAX_TOOL_ROUNDS};

fn texts(m: &[(&'static str, String)]) -> Vec<(String, String)> {
    m.iter().map(|(r, t)| (r.to_string(), t.clone())).collect()
}

#[test]
fn a_turn_plans_runs_tools_and_answers() {
    let s0 = turn_start();
    let s1 = turn_step(&s0, TurnEvent::Begin("fix it".to_string()), false);
    assert_eq!(texts(&s1.messages), vec![("user".to_string(), "fix it".to_string())]);
    assert!(matches!(s1.action, TurnAction::AskPlan));
    assert_eq!(s1.state.round, 1);

    let plan = "<tool_call>{\"tool\":\"Read\",\"args\":{\"path\":\"a.rs\"}}</tool_call>\n<tool_call>{\"tool\":\"Bash\",\"args\":{\"command\":\"ls\"}}</tool_call>\n<tool_call>{oops</tool_call>";
    let s2 = turn_step(&s1.state, TurnEvent::Planned(plan.to_string()), false);
    assert_eq!(texts(&s2.messages), vec![("assistant".to_string(), plan.to_string())]);
    match &s2.action {
        TurnAction::Run(c) => assert_eq!(c.tool, "Read"),
        _ => panic!("expected a call"),
    }
    let s3 = turn_step(&s2.state, TurnEvent::Ran(Ok("contents".to_string())), false);
    assert_eq!(s3.messages[0].1, "<tool_result>\ncontents\n</tool_result>");
    match &s3.action {
        TurnAction::Run(c) => assert_eq!(c.tool, "Bash"),
        _ => panic!("expected the second call"),
    }
    let s4 = turn_step(&s3.state, TurnEvent::Refused("action blocked".to_string()), false);
    assert_eq!(s4.messages[0].1, "<tool_result>\npermission: action blocked\n</tool_result>");
    assert_eq!(s4.messages.len(), 2);
    assert!(s4.messages[1].1.starts_with("<tool_result>\ntool call parse error: "));
    assert!(s4.messages[1].1.ends_with("\nfix the JSON and re-emit the tool call\n</tool_result>"));
    assert!(matches!(s4.action, TurnAction::AskPlan));
    assert_eq!(s4.state.round, 2);

    let s5 = turn_step(&s4.state, TurnEvent::Planned("All done.".to_string()), false);
    assert!(s5.messages.is_empty());
    assert!(matches!(s5.action, TurnAction::AskAnswer));
    let s6 = turn_step(&s5.state, TurnEvent::Answered("Fixed.".to_string()), false);
    assert_eq!(texts(&s6.messages), vec![("assistant".to_string(), "Fixed.".to_string())]);
    assert!(matches!(s6.action, TurnAction::Done));
}

#[test]
fn a_stop_goes_to_the_answer_and_errors_are_reported() {
    let s0 = turn_start();
    let s1 = turn_step(&s0, TurnEvent::Begin("go".to_string()), false);
    let plan = "<tool_call>{\"tool\":\"Bash\",\"args\":{\"command\":\"ls\"}}</tool_call><tool_call>{\"tool\":\"Bash\",\"args\":{\"command\":\"pwd\"}}</tool_call>";
    let s2 = turn_step(&s1.state, TurnEvent::Planned(plan.to_string()), false);
    let s3 = turn_step(&s2.state, TurnEvent::Ran(Err("boom".to_string())), true);
    assert_eq!(s3.messages[0].1, "<tool_result>\ntool error: boom\n</tool_result>");
    assert!(matches!(s3.action, TurnAction::AskAnswer));
    assert!(s3.state.pending.is_empty());
    let b = turn_step(&s2.state, TurnEvent::Blocked(vec!["hook a".to_string(), "hook b".to_string()]), false);
    assert_eq!(b.messages[0].1, "<tool_result>\nhook a; hook b\n</tool_result>");
    let stopped = turn_step(&s0, TurnEvent::Begin("go".to_string()), true);
    assert!(matches!(stopped.action, TurnAction::AskAnswer));
}

#[test]
fn rounds_are_capped() {
    let mut s = turn_step(&turn_start(), TurnEvent::Begin("go".to_string()), false);
    let plan = "<tool_call>{\"tool\":\"Bash\",\"args\":{\"command\":\"ls\"}}</tool_call>";
    let mut asks = 1;
    loop {
        let p = turn_step(&s.state, TurnEvent::Planned(plan.to_string()), false);
        let r = turn_step(&p.state, TurnEvent::Ran(Ok("x".to_string())), false);
        match r.action {
            TurnAction::AskPlan => asks += 1,
            TurnAction::AskAnswer => break,
            _ => panic!("unexpected action"),
        }
        s = r;
    }
    assert_eq!(asks, MAX_TOOL_ROUNDS);
}

#[test]
fn turn_context_joins_sections() {
    assert_eq!(turn_context("mem", "tools", "  ", "extra", false), "mem\n\ntools\n\nextra");
    assert_eq!(turn_context("", "tools", "", "", true), format!("tools{ANSWER_NOTE}"));
}

#[test]
fn memory_is_learned_on_the_mode_cadence() {
    assert_eq!(after_turn_plan(PrivacyMode::Normal, MemoryMode::BestQuality, 0, "hi", "hello"), Some((1, true)));
    assert_eq!(after_turn_plan(PrivacyMode::Normal, MemoryMode::Hybrid, 1, "hi", "hello"), Some((2, false)));
    assert_eq!(after_turn_plan(PrivacyMode::Normal, MemoryMode::Hybrid, 2, "hi", "hello"), Some((3, true)));
    assert_eq!(after_turn_plan(PrivacyMode::Normal, MemoryMode::ToolOnly, 5, "hi", "hello"), Some((6, false)));
    assert_eq!(after_turn_plan(PrivacyMode::Incognito, MemoryMode::BestQuality, 0, "hi", "hello"), None);
    assert_eq!(after_turn_plan(PrivacyMode::Normal, MemoryMode::BestQuality, 0, "my password is x", "ok"), None);
}

use biscuits::goal_store::{GoalCommand, GoalStore};
use biscuits::goals::GoalPlanState;
use biscuits::json::Json;

fn s(text: &str) -> Json {
    Json::Str(text.to_string())
}

fn b(v: bool) -> Json {
    Json::Bool(v)
}

fn list(items: &[&str]) -> Json {
    Json::Array(items.iter().map(|t| s(t)).collect())
}

fn obj(members: Vec<(&str, Json)>) -> Json {
    Json::Object(members.into_iter().map(|(k, v)| (k.to_string(), v)).collect())
}

fn empty_store() -> GoalStore {
    GoalStore::from_state(
        "/w/.biscuits/goal_plan.json".to_string(),
        GoalPlanState { goal: None, plan: None, updated_at: 0 },
        false,
    )
}

fn set_goal(store: &mut GoalStore, title: &str, reqs: &[&str]) {
    store
        .execute_goal(
            &obj(vec![("action", s("set")), ("title", s(title)), ("requirements", list(reqs))]),
            1,
        )
        .unwrap();
}

fn mark_done_args(evidence: &str) -> Json {
    obj(vec![
        ("action", s("mark_done")),
        ("requirements_met", b(true)),
        ("verified", b(true)),
        ("no_errors", b(true)),
        ("checks", list(&["cargo test"])),
        ("evidence", list(&[evidence])),
    ])
}

#[test]
fn done_requires_all_requirements_and_checks() {
    let mut store = empty_store();
    set_goal(&mut store, "Build goal system", &["Track requirements", "Verify completion"]);

    let err = store.execute_goal(&mark_done_args("implementation complete"), 2).unwrap_err();
    assert!(err.contains("incomplete requirements"));

    store
        .execute_goal(
            &obj(vec![
                ("action", s("update_requirement")),
                ("id", s("R1")),
                ("status", s("done")),
                ("evidence", s("todo list exists")),
            ]),
            3,
        )
        .unwrap();
    store
        .execute_goal(
            &obj(vec![
                ("action", s("update_requirement")),
                ("id", s("R2")),
                ("status", s("done")),
                ("evidence", s("done gate rejects incomplete goals")),
            ]),
            4,
        )
        .unwrap();

    let rendered = store.execute_goal(&mark_done_args("all requirements marked done"), 5).unwrap();
    assert!(rendered.contains("goal: Build goal system (done)"));
}

#[test]
fn done_requirement_needs_evidence() {
    let mut store = empty_store();
    set_goal(&mut store, "Build plan", &["Plan has steps"]);
    let err = store
        .execute_goal(
            &obj(vec![("action", s("update_requirement")), ("id", s("R1")), ("status", s("done"))]),
            2,
        )
        .unwrap_err();
    assert!(err.contains("evidence"));
}

#[test]
fn set_goal_renders_the_listing() {
    let mut store = empty_store();
    let out = store
        .execute_goal(
            &obj(vec![
                ("action", s("SET")),
                ("title", s("  Ship  ")),
                ("requirements", list(&["a", "  ", "b"])),
                ("done_criteria", list(&["tests pass"])),
            ]),
            7,
        )
        .unwrap();
    assert_eq!(
        out,
        "goal: Ship (in_progress)\ndone criteria:\n- tests pass\nrequirements:\n- [pending] R1: a\n- [pending] R3: b"
    );
    assert!(store.needs_save());
    assert_eq!(store.state().updated_at, 7);
    store.mark_saved();
    assert!(!store.needs_save());
    let listed = store.execute_goal(&obj(vec![("action", s("list"))]), 8).unwrap();
    assert_eq!(listed, out);
    assert!(!store.needs_save());
    assert_eq!(store.state().updated_at, 7);
}

#[test]
fn goal_errors_leave_the_state_alone() {
    let mut store = empty_store();
    assert!(store.needs_save());
    store.mark_saved();
    assert_eq!(store.execute_goal(&obj(vec![]), 1).unwrap_err(), "missing string arg: action");
    assert_eq!(
        store.execute_goal(&obj(vec![("action", s("dance"))]), 1).unwrap_err(),
        "unknown Goal action: dance"
    );
    assert_eq!(
        store.execute_goal(&obj(vec![("action", s("add")), ("text", s("x"))]), 1).unwrap_err(),
        "no active goal"
    );
    assert_eq!(
        store.execute_goal(&obj(vec![("action", s("set")), ("title", s(" "))]), 1).unwrap_err(),
        "goal title cannot be empty"
    );
    assert_eq!(
        store
            .execute_goal(&obj(vec![("action", s("set")), ("title", s("t")), ("requirements", list(&[]))]), 1)
            .unwrap_err(),
        "goal requires at least one requirement"
    );
    assert_eq!(
        store
            .execute_goal(&obj(vec![("action", s("set")), ("title", s("t")), ("requirements", s("x"))]), 1)
            .unwrap_err(),
        "requirements must be an array"
    );
    assert!(!store.needs_save());
    assert_eq!(store.render_goal(), "no active goal");
}

#[test]
fn status_done_goes_through_the_gate() {
    let mut store = empty_store();
    set_goal(&mut store, "g", &["one"]);
    let err = store.execute_goal(&obj(vec![("action", s("status")), ("status", s("Done"))]), 2).unwrap_err();
    assert_eq!(err, "use Goal action mark_done so the done gate can verify requirements and checks");
    let out = store.execute_goal(&obj(vec![("action", s("status")), ("status", s("blocked"))]), 2).unwrap();
    assert!(out.starts_with("goal: g (blocked)"));
    let err = store.execute_goal(&obj(vec![("action", s("status")), ("status", s("later"))]), 2).unwrap_err();
    assert_eq!(err, "unknown goal status: later");
}

#[test]
fn mark_done_checks_each_flag_in_turn() {
    let mut store = empty_store();
    set_goal(&mut store, "g", &["one"]);
    store
        .execute_goal(
            &obj(vec![("action", s("update")), ("id", s("r1")), ("status", s("complete")), ("evidence", s("ok"))]),
            2,
        )
        .unwrap();
    let err = store.execute_goal(&obj(vec![("action", s("done"))]), 3).unwrap_err();
    assert_eq!(err, "cannot mark done: requirements_met must be true");
    let err = store
        .execute_goal(&obj(vec![("action", s("done")), ("requirements_met", b(true))]), 3)
        .unwrap_err();
    assert_eq!(err, "cannot mark done: verified must be true after checks pass");
    let err = store
        .execute_goal(&obj(vec![("action", s("done")), ("requirements_met", b(true)), ("verified", b(true))]), 3)
        .unwrap_err();
    assert_eq!(err, "cannot mark done: no_errors must be true");
    let err = store
        .execute_goal(
            &obj(vec![
                ("action", s("done")),
                ("requirements_met", b(true)),
                ("verified", b(true)),
                ("no_errors", b(true)),
            ]),
            3,
        )
        .unwrap_err();
    assert_eq!(err, "cannot mark done: provide evidence of completed requirements");
    let err = store
        .execute_goal(
            &obj(vec![
                ("action", s("done")),
                ("requirements_met", b(true)),
                ("verified", b(true)),
                ("no_errors", b(true)),
                ("deliverables", list(&["it"])),
            ]),
            3,
        )
        .unwrap_err();
    assert_eq!(err, "cannot mark done: provide verification checks");
    let out = store
        .execute_goal(
            &obj(vec![
                ("action", s("complete")),
                ("requirements_met", b(true)),
                ("verified", b(true)),
                ("no_errors", b(true)),
                ("deliverables", list(&["it"])),
                ("commands", s("make")),
            ]),
            3,
        )
        .unwrap();
    assert_eq!(
        out,
        "goal: g (done)\nrequirements:\n- [done] R1: one (ok)\ndone check:\n- requirements_met=true verified=true no_errors=true\n- checks: make\n- evidence: it"
    );
}

#[test]
fn reopening_a_requirement_reopens_the_goal() {
    let mut store = empty_store();
    set_goal(&mut store, "g", &["one"]);
    store
        .execute_goal(
            &obj(vec![("action", s("update")), ("id", s("R1")), ("status", s("done")), ("evidence", s("e"))]),
            2,
        )
        .unwrap();
    store.execute_goal(&mark_done_args("e"), 3).unwrap();
    let out = store
        .execute_goal(&obj(vec![("action", s("update")), ("id", s("R1")), ("status", s("doing"))]), 4)
        .unwrap();
    assert_eq!(out, "goal: g (in_progress)\nrequirements:\n- [in_progress] R1: one (e)");
    let err = store
        .execute_goal(&obj(vec![("action", s("update")), ("id", s("R9")), ("status", s("doing"))]), 5)
        .unwrap_err();
    assert_eq!(err, "requirement not found: R9");
}

#[test]
fn add_requirement_from_text_reopens_goal() {
    let mut store = empty_store();
    set_goal(&mut store, "g", &["one"]);
    let out = store
        .execute_goal(&obj(vec![("action", s("add_requirement")), ("text", s(" two "))]), 2)
        .unwrap();
    assert_eq!(out, "goal: g (in_progress)\nrequirements:\n- [pending] R1: one\n- [pending] R2: two");
    let err = store.execute_goal(&obj(vec![("action", s("add"))]), 3).unwrap_err();
    assert_eq!(err, "no requirements provided");
}

#[test]
fn plan_set_add_update_and_clear() {
    let mut store = empty_store();
    let step = obj(vec![
        ("action", s("Inspect")),
        ("tools", list(&["Read", "Grep"])),
        ("files", s("src/main.rs")),
        ("status", s("todo")),
    ]);
    let out = store
        .execute_plan(
            &obj(vec![("action", s("set")), ("summary", s("Do it")), ("steps", Json::Array(vec![step, s("Edit")]))]),
            1,
        )
        .unwrap();
    assert_eq!(out, "plan: Do it\n- [pending] P1: Inspect | tools: Read, Grep | files: src/main.rs\n- [pending] P2: Edit");
    let out = store
        .execute_plan(&obj(vec![("action", s("add_step")), ("task", s("Test")), ("notes", s("n"))]), 2)
        .unwrap();
    assert!(out.ends_with("- [pending] P3: Test | notes: n"));
    let out = store
        .execute_plan(
            &obj(vec![("action", s("update")), ("id", s("p2")), ("status", s("done")), ("tools", list(&["Edit"]))]),
            3,
        )
        .unwrap();
    assert!(out.contains("- [done] P2: Edit | tools: Edit\n"));
    let err = store
        .execute_plan(&obj(vec![("action", s("update")), ("id", s("P7"))]), 3)
        .unwrap_err();
    assert_eq!(err, "plan step not found: P7");
    let err = store.execute_plan(&obj(vec![("action", s("add"))]), 3).unwrap_err();
    assert_eq!(err, "missing step/task/description");
    let err = store.execute_plan(&obj(vec![("action", s("fly"))]), 3).unwrap_err();
    assert_eq!(err, "unknown Plan action: fly");
    assert_eq!(store.execute_plan(&obj(vec![("action", s("clear"))]), 4).unwrap(), "plan cleared");
    assert_eq!(store.render_plan(), "no active plan");
}

#[test]
fn commands_show_clear_and_ask_for_json() {
    let mut store = empty_store();
    set_goal(&mut store, "g", &["one"]);
    store.mark_saved();
    match store.command_output("/todos", 2) {
        Some(GoalCommand::Text(t)) => assert_eq!(t, "goal: g (in_progress)\nrequirements:\n- [pending] R1: one"),
        _ => panic!("expected text"),
    }
    assert!(matches!(store.command_output("/goal json", 2), Some(GoalCommand::GoalJson)));
    assert!(matches!(store.command_output("/plan json", 2), Some(GoalCommand::PlanJson)));
    assert!(!store.needs_save());
    match store.command_output("/goals clear", 9) {
        Some(GoalCommand::Text(t)) => assert_eq!(t, "goal cleared"),
        _ => panic!("expected text"),
    }
    assert!(store.needs_save());
    assert_eq!(store.state().updated_at, 9);
    assert!(store.command_output("/goalx", 9).is_none());
}

#[test]
fn system_prompt_embeds_goal_and_plan() {
    let mut store = empty_store();
    set_goal(&mut store, "g", &["one"]);
    let p = store.system_prompt();
    assert!(p.starts_with("<goal_planning_system>\n"));
    assert!(p.ends_with(
        "Current goal and plan:\ngoal: g (in_progress)\nrequirements:\n- [pending] R1: one\nno active plan\n</goal_planning_system>"
    ));
    assert!(p.contains("<tool_call>{\"tool\":\"Goal\",\"args\":{\"action\":\"set\""));
}

//! The goal store: the goal and plan of a workspace, changed by `Goal` and
//! `Plan` tool calls and by the `/goal` and `/plan` commands. The store keeps
//! the state and remembers whether it changed since it was last saved; the
//! caller reads and writes `goal_plan.json` and supplies the clock.
use vstd::prelude::*;
use crate::goals::{
    state_gate_holds, step_view, Plan, first_present, opt_str, or_default, steps_spec, plan_steps_from_value, first_present_exec, item_status, multi_key_string_vec, str_or_empty, DoneCheck, numbered_exec, requirements_from_value, str_arg, string_vec, req_view, reqs_view, steps_view, PlanStep, Requirement, first_strings, goal_text, goal_view, item_status_spec, numbered, or_empty, plan_text, plan_view,
    render_goal_spec, render_plan_spec, requirements_spec, state_view, value_strings, DoneView, Goal,
    GoalPlanState, GoalStatus, GoalView, ItemStatus, PlanView, ReqView, StateView, StepView,
};
use crate::json::{bool_arg, bool_member, get, get_str, str_member, Json, JsonTree};
use crate::text::{
    chars_eq_str, chars_of, join_parts, to_lowercase, eq_ignore_ascii_case, eq_ignore_case, views, extend_chars, extend_str, join, string_of, trim, truncate_dots,
    trim_str, truncate_with_dots, unicode_lowercase,
};

verus! {

broadcast use vstd::string::group_string_axioms;

/// The text of the goal-planning system prompt before the current goal and
/// plan.
pub const GOAL_PROMPT_HEAD: &'static str = r#"<goal_planning_system>
Use the Goal and Plan tools for non-trivial user requests, especially implementation, debugging, or multi-step work.
- Goal is the todo list for user requirements. Create one requirement per concrete user requirement.
- Plan records what you are going to do, which tools you expect to use, and which files you expect to change.
- Keep Goal and Plan updated as work progresses.
- Definition of done: only call Goal mark_done when observations confirm every requirement is marked done, the delivered result fully complies with the user request, verification checks passed, and there are no known errors.
- If any requirement is incomplete, a check fails, or an error remains, keep the goal in_progress or blocked and explain what is left.

Goal tool examples:
<tool_call>{"tool":"Goal","args":{"action":"set","title":"Build feature","requirements":["Requirement one","Requirement two"],"done_criteria":["All requirements done","Verification passes","No known errors"]}}</tool_call>
<tool_call>{"tool":"Goal","args":{"action":"update_requirement","id":"R1","status":"done","evidence":"Implemented and verified"}}</tool_call>
<tool_call>{"tool":"Goal","args":{"action":"mark_done","requirements_met":true,"verified":true,"no_errors":true,"checks":["cargo test"],"evidence":["All requirements are done"]}}</tool_call>

Plan tool example:
<tool_call>{"tool":"Plan","args":{"action":"set","summary":"Implement requested feature","steps":[{"action":"Inspect existing code","tools":["Read","Grep"],"files":["src/main.rs"],"status":"pending"},{"action":"Edit Rust modules","tools":["Edit","Bash"],"files":["src/main.rs"],"status":"pending"}]}}</tool_call>

Current goal and plan:
"#;

/// The text of the goal-planning system prompt after the current goal and
/// plan.
pub const GOAL_PROMPT_TAIL: &'static str = "\n</goal_planning_system>";

/// The goal and plan of one workspace.
pub struct GoalStore {
    path: String,
    state: GoalPlanState,
    unsaved: bool,
}

/// A store as values: where it is saved, its state, and whether that state
/// changed since it was last saved.
pub struct StoreView {
    pub path: Seq<char>,
    pub state: StateView,
    pub unsaved: bool,
}

impl View for GoalStore {
    type V = StoreView;

    closed spec fn view(&self) -> StoreView {
        StoreView { path: self.path@, state: state_view(self.state), unsaved: self.unsaved }
    }
}

/// The goal and then the plan, cut to 3000 characters.
pub open spec fn compact_snapshot_spec(s: StateView) -> Seq<char> {
    truncate_dots(render_goal_spec(s.goal) + "\n"@ + render_plan_spec(s.plan), 3000)
}

pub open spec fn system_prompt_spec(s: StateView) -> Seq<char> {
    GOAL_PROMPT_HEAD@ + compact_snapshot_spec(s) + GOAL_PROMPT_TAIL@
}


// ---------------------------------------------------------------------------
// What the actions do, over values
// ---------------------------------------------------------------------------

/// The error for a missing string argument.
pub open spec fn missing_arg(key: Seq<char>) -> Seq<char> {
    "missing string arg: "@ + key
}

/// A boolean argument, false when absent.
pub open spec fn flag(args: JsonTree, key: Seq<char>) -> bool {
    match bool_member(args, key) {
        Some(b) => b,
        None => false,
    }
}

/// The ids of a list of requirements.
pub open spec fn req_ids(rs: Seq<ReqView>) -> Seq<Seq<char>> {
    rs.map_values(|r: ReqView| r.id)
}

/// The ids of a list of plan steps.
pub open spec fn step_ids(ss: Seq<StepView>) -> Seq<Seq<char>> {
    ss.map_values(|s: StepView| s.id)
}

/// The index of the first id equal to `id` up to ASCII case, or -1.
pub open spec fn find_id(ids: Seq<Seq<char>>, id: Seq<char>) -> int
    decreases ids.len(),
{
    if ids.len() == 0 {
        -1
    } else {
        let k = find_id(ids.drop_last(), id);
        if k >= 0 {
            k
        } else if eq_ignore_ascii_case(ids.last(), id) {
            ids.len() - 1
        } else {
            -1
        }
    }
}

/// `id text` of each requirement that is not done, in order.
pub open spec fn incomplete_lines(rs: Seq<ReqView>) -> Seq<Seq<char>>
    decreases rs.len(),
{
    if rs.len() == 0 {
        Seq::empty()
    } else {
        incomplete_lines(rs.drop_last()) + if rs.last().status != ItemStatus::Done {
            seq![rs.last().id + " "@ + rs.last().text]
        } else {
            Seq::empty()
        }
    }
}

/// `Goal set`: a new goal from a title and at least one requirement.
pub open spec fn set_goal_spec(args: JsonTree, now: u64) -> Result<GoalView, Seq<char>> {
    match str_member(args, "title"@) {
        None => Err(missing_arg("title"@)),
        Some(t) => if trim(t).len() == 0 {
            Err("goal title cannot be empty"@)
        } else {
            match requirements_spec(get(args, "requirements"@), 1) {
                Err(e) => Err(e),
                Ok(reqs) => if reqs.len() == 0 {
                    Err("goal requires at least one requirement"@)
                } else {
                    Ok(GoalView {
                        title: trim(t),
                        status: GoalStatus::InProgress,
                        reqs,
                        criteria: value_strings(get(args, "done_criteria"@)),
                        done: None,
                        updated_at: now,
                    })
                },
            }
        },
    }
}

/// The requirements `Goal add` appends: those listed, or else one from `text`.
pub open spec fn added_reqs(args: JsonTree, listed: Seq<ReqView>, next: nat) -> Seq<ReqView> {
    if listed.len() > 0 {
        listed
    } else {
        match str_member(args, "text"@) {
            Some(t) => seq![ReqView { id: numbered('R', next), text: trim(t), status: ItemStatus::Pending, evidence: Seq::empty() }],
            None => Seq::empty(),
        }
    }
}

/// `Goal add`: more requirements; the goal is in progress again.
pub open spec fn add_reqs_spec(goal: Option<GoalView>, args: JsonTree, now: u64) -> Result<GoalView, Seq<char>> {
    match goal {
        None => Err("no active goal"@),
        Some(g) => match requirements_spec(get(args, "requirements"@), g.reqs.len() + 1) {
            Err(e) => Err(e),
            Ok(listed) => {
                let added = added_reqs(args, listed, g.reqs.len() + 1);
                if added.len() == 0 {
                    Err("no requirements provided"@)
                } else {
                    Ok(GoalView {
                        title: g.title,
                        status: GoalStatus::InProgress,
                        reqs: g.reqs + added,
                        criteria: g.criteria,
                        done: None,
                        updated_at: now,
                    })
                }
            },
        },
    }
}

/// `Goal update`: the status (and evidence) of one requirement. A done
/// requirement needs evidence; a goal that was done and loses a done
/// requirement is in progress again.
pub open spec fn update_req_spec(goal: Option<GoalView>, args: JsonTree, now: u64) -> Result<GoalView, Seq<char>> {
    match str_member(args, "id"@) {
        None => Err(missing_arg("id"@)),
        Some(id) => match item_status_spec(get(args, "status"@), ItemStatus::InProgress) {
            Err(e) => Err(e),
            Ok(st) => {
                let ev = trim(or_empty(str_member(args, "evidence"@)));
                if st == ItemStatus::Done && ev.len() == 0 {
                    Err("done requirements need evidence"@)
                } else {
                    match goal {
                        None => Err("no active goal"@),
                        Some(g) => {
                            let k = find_id(req_ids(g.reqs), id);
                            if k < 0 {
                                Err("requirement not found: "@ + id)
                            } else {
                                let r = g.reqs[k];
                                let r2 = ReqView {
                                    id: r.id,
                                    text: r.text,
                                    status: st,
                                    evidence: if ev.len() > 0 { ev } else { r.evidence },
                                };
                                let reopen = g.status == GoalStatus::Done && st != ItemStatus::Done;
                                Ok(GoalView {
                                    title: g.title,
                                    status: if reopen { GoalStatus::InProgress } else { g.status },
                                    reqs: g.reqs.update(k, r2),
                                    criteria: g.criteria,
                                    done: if reopen { None } else { g.done },
                                    updated_at: now,
                                })
                            }
                        },
                    }
                }
            },
        },
    }
}

/// `Goal status`: in progress or blocked; never done (that is `mark_done`).
pub open spec fn set_status_spec(goal: Option<GoalView>, args: JsonTree, now: u64) -> Result<GoalView, Seq<char>> {
    match str_member(args, "status"@) {
        None => Err(missing_arg("status"@)),
        Some(s) => {
            let l = unicode_lowercase(s);
            if l == "done"@ {
                Err("use Goal action mark_done so the done gate can verify requirements and checks"@)
            } else {
                match goal {
                    None => Err("no active goal"@),
                    Some(g) => {
                        let st = if l == "in_progress"@ || l == "progress"@ || l == "active"@ {
                            Some(GoalStatus::InProgress)
                        } else if l == "blocked"@ {
                            Some(GoalStatus::Blocked)
                        } else {
                            None
                        };
                        match st {
                            None => Err("unknown goal status: "@ + l),
                            Some(st) => Ok(GoalView {
                                title: g.title,
                                status: st,
                                reqs: g.reqs,
                                criteria: g.criteria,
                                done: g.done,
                                updated_at: now,
                            }),
                        }
                    },
                }
            }
        },
    }
}

/// `Goal mark_done`, the done gate: every requirement done, the three flags
/// set, and evidence and checks named.
pub open spec fn mark_done_spec(goal: Option<GoalView>, args: JsonTree, now: u64) -> Result<GoalView, Seq<char>> {
    match goal {
        None => Err("no active goal"@),
        Some(g) => {
            let evidence = first_strings(args, seq!["evidence", "deliverables"]);
            let checks = first_strings(args, seq!["checks", "verification", "commands"]);
            if g.reqs.len() == 0 {
                Err("cannot mark done: goal has no requirements"@)
            } else if incomplete_lines(g.reqs).len() > 0 {
                Err("cannot mark done: incomplete requirements remain: "@ + join(incomplete_lines(g.reqs), "; "@))
            } else if !flag(args, "requirements_met"@) {
                Err("cannot mark done: requirements_met must be true"@)
            } else if !flag(args, "verified"@) {
                Err("cannot mark done: verified must be true after checks pass"@)
            } else if !flag(args, "no_errors"@) {
                Err("cannot mark done: no_errors must be true"@)
            } else if evidence.len() == 0 {
                Err("cannot mark done: provide evidence of completed requirements"@)
            } else if checks.len() == 0 {
                Err("cannot mark done: provide verification checks"@)
            } else {
                Ok(GoalView {
                    title: g.title,
                    status: GoalStatus::Done,
                    reqs: g.reqs,
                    criteria: g.criteria,
                    done: Some(DoneView {
                        requirements_met: true,
                        verified: true,
                        no_errors: true,
                        evidence,
                        checks,
                        notes: or_empty(str_member(args, "notes"@)),
                        at: now,
                    }),
                    updated_at: now,
                })
            }
        },
    }
}

/// The state after a goal action gave `r`, and the listing it answers with.
pub open spec fn goal_outcome(s: StateView, r: Result<GoalView, Seq<char>>, now: u64) -> Result<(StateView, Seq<char>), Seq<char>> {
    match r {
        Err(e) => Err(e),
        Ok(g) => Ok((StateView { goal: Some(g), plan: s.plan, updated_at: now }, render_goal_spec(Some(g)))),
    }
}

pub enum ActionKind {
    Create,
    Add,
    Update,
    Status,
    MarkDone,
    List,
    Clear,
    Unknown,
}

/// The kind of a (lowercased) `Goal` action.
pub open spec fn goal_action_kind(a: Seq<char>) -> ActionKind {
    if a == "set"@ || a == "create"@ || a == "reset"@ {
        ActionKind::Create
    } else if a == "add"@ || a == "add_requirement"@ {
        ActionKind::Add
    } else if a == "update"@ || a == "update_requirement"@ {
        ActionKind::Update
    } else if a == "status"@ || a == "set_status"@ {
        ActionKind::Status
    } else if a == "mark_done"@ || a == "done"@ || a == "complete"@ {
        ActionKind::MarkDone
    } else if a == "list"@ || a == "show"@ {
        ActionKind::List
    } else if a == "clear"@ {
        ActionKind::Clear
    } else {
        ActionKind::Unknown
    }
}

/// A `Goal` tool call on state `s` at time `now`: the new state and the
/// answer, or the error.
pub open spec fn goal_step(s: StateView, args: JsonTree, now: u64) -> Result<(StateView, Seq<char>), Seq<char>> {
    match str_member(args, "action"@) {
        None => Err(missing_arg("action"@)),
        Some(a) => {
            let l = unicode_lowercase(a);
            match goal_action_kind(l) {
                ActionKind::Create => goal_outcome(s, set_goal_spec(args, now), now),
                ActionKind::Add => goal_outcome(s, add_reqs_spec(s.goal, args, now), now),
                ActionKind::Update => goal_outcome(s, update_req_spec(s.goal, args, now), now),
                ActionKind::Status => goal_outcome(s, set_status_spec(s.goal, args, now), now),
                ActionKind::MarkDone => goal_outcome(s, mark_done_spec(s.goal, args, now), now),
                ActionKind::List => Ok((s, render_goal_spec(s.goal))),
                ActionKind::Clear => Ok((StateView { goal: None, plan: s.plan, updated_at: now }, "goal cleared"@)),
                ActionKind::Unknown => Err("unknown Goal action: "@ + l),
            }
        },
    }
}

/// Whether a tool call with these arguments changes the state when it
/// succeeds (everything but listing).
pub open spec fn goal_call_changes(args: JsonTree) -> bool {
    match str_member(args, "action"@) {
        Some(a) => goal_action_kind(unicode_lowercase(a)) != ActionKind::List,
        None => false,
    }
}

/// `Plan set`: a new plan from a summary and at least one step.
pub open spec fn set_plan_spec(args: JsonTree, now: u64) -> Result<PlanView, Seq<char>> {
    match str_member(args, "summary"@) {
        None => Err(missing_arg("summary"@)),
        Some(t) => if trim(t).len() == 0 {
            Err("plan summary cannot be empty"@)
        } else {
            match steps_spec(get(args, "steps"@), 1) {
                Err(e) => Err(e),
                Ok(steps) => if steps.len() == 0 {
                    Err("plan requires at least one step"@)
                } else {
                    Ok(PlanView { summary: trim(t), steps, updated_at: now })
                },
            }
        },
    }
}

/// The text a step argument gives: `step`, `task` or `description`.
pub open spec fn step_text(args: JsonTree) -> Option<Seq<char>> {
    opt_str(first_present(args, "step"@, "task"@, "description"@))
}

/// `Plan add`: one more step, numbered after the others.
pub open spec fn add_step_spec(plan: Option<PlanView>, args: JsonTree, now: u64) -> Result<PlanView, Seq<char>> {
    match plan {
        None => Err("no active plan"@),
        Some(p) => match step_text(args) {
            None => Err("missing step/task/description"@),
            Some(a) => if trim(a).len() == 0 {
                Err("plan step cannot be empty"@)
            } else {
                match item_status_spec(get(args, "status"@), ItemStatus::Pending) {
                    Err(e) => Err(e),
                    Ok(st) => Ok(PlanView {
                        summary: p.summary,
                        steps: p.steps.push(StepView {
                            id: numbered('P', p.steps.len() + 1),
                            action: trim(a),
                            tools: value_strings(get(args, "tools"@)),
                            files: value_strings(get(args, "files"@)),
                            status: st,
                            notes: or_empty(str_member(args, "notes"@)),
                        }),
                        updated_at: now,
                    }),
                }
            },
        },
    }
}

/// A list argument that replaces `current` when it names anything.
pub open spec fn replaced_list(given: Seq<Seq<char>>, current: Seq<Seq<char>>) -> Seq<Seq<char>> {
    if given.len() > 0 { given } else { current }
}

/// `Plan update`: what the arguments give of one step (status, notes,
/// action, tools, files); the rest stays.
pub open spec fn update_step_spec(plan: Option<PlanView>, args: JsonTree, now: u64) -> Result<PlanView, Seq<char>> {
    match str_member(args, "id"@) {
        None => Err(missing_arg("id"@)),
        Some(id) => match plan {
            None => Err("no active plan"@),
            Some(p) => {
                let k = find_id(step_ids(p.steps), id);
                if k < 0 {
                    Err("plan step not found: "@ + id)
                } else {
                    let st = p.steps[k];
                    match item_status_spec(get(args, "status"@), st.status) {
                        Err(e) => Err(e),
                        Ok(status) => {
                            let action = match step_text(args) {
                                Some(a) => if trim(a).len() > 0 { trim(a) } else { st.action },
                                None => st.action,
                            };
                            Ok(PlanView {
                                summary: p.summary,
                                steps: p.steps.update(k, StepView {
                                    id: st.id,
                                    action,
                                    tools: replaced_list(value_strings(get(args, "tools"@)), st.tools),
                                    files: replaced_list(value_strings(get(args, "files"@)), st.files),
                                    status,
                                    notes: or_default(str_member(args, "notes"@), st.notes),
                                }),
                                updated_at: now,
                            })
                        },
                    }
                }
            },
        },
    }
}

/// The state after a plan action gave `r`, and the listing it answers with.
pub open spec fn plan_outcome(s: StateView, r: Result<PlanView, Seq<char>>, now: u64) -> Result<(StateView, Seq<char>), Seq<char>> {
    match r {
        Err(e) => Err(e),
        Ok(p) => Ok((StateView { goal: s.goal, plan: Some(p), updated_at: now }, render_plan_spec(Some(p)))),
    }
}

/// The kind of a (lowercased) `Plan` action.
pub open spec fn plan_action_kind(a: Seq<char>) -> ActionKind {
    if a == "set"@ || a == "create"@ || a == "reset"@ {
        ActionKind::Create
    } else if a == "add"@ || a == "add_step"@ {
        ActionKind::Add
    } else if a == "update"@ || a == "update_step"@ {
        ActionKind::Update
    } else if a == "list"@ || a == "show"@ {
        ActionKind::List
    } else if a == "clear"@ {
        ActionKind::Clear
    } else {
        ActionKind::Unknown
    }
}

/// A `Plan` tool call on state `s` at time `now`: the new state and the
/// answer, or the error.
pub open spec fn plan_step(s: StateView, args: JsonTree, now: u64) -> Result<(StateView, Seq<char>), Seq<char>> {
    match str_member(args, "action"@) {
        None => Err(missing_arg("action"@)),
        Some(a) => {
            let l = unicode_lowercase(a);
            match plan_action_kind(l) {
                ActionKind::Create => plan_outcome(s, set_plan_spec(args, now), now),
                ActionKind::Add => plan_outcome(s, add_step_spec(s.plan, args, now), now),
                ActionKind::Update => plan_outcome(s, update_step_spec(s.plan, args, now), now),
                ActionKind::List => Ok((s, render_plan_spec(s.plan))),
                ActionKind::Clear => Ok((StateView { goal: s.goal, plan: None, updated_at: now }, "plan cleared"@)),
                _ => Err("unknown Plan action: "@ + l),
            }
        },
    }
}

/// Whether a `Plan` call with these arguments changes the state when it
/// succeeds (everything but listing).
pub open spec fn plan_call_changes(args: JsonTree) -> bool {
    match str_member(args, "action"@) {
        Some(a) => plan_action_kind(unicode_lowercase(a)) != ActionKind::List,
        None => false,
    }
}

/// What a `/goal` or `/plan` command answers with: text, or the goal or
/// plan to be shown as JSON.
pub enum GoalCommand {
    Text(String),
    GoalJson,
    PlanJson,
}

pub enum CommandKind {
    ShowGoal,
    GoalJson,
    ClearGoal,
    ShowPlan,
    PlanJson,
    ClearPlan,
    Other,
}

/// The command a line of input is.
pub open spec fn command_kind(input: Seq<char>) -> CommandKind {
    if input == "/goal"@ || input == "/goals"@ || input == "/todo"@ || input == "/todos"@ {
        CommandKind::ShowGoal
    } else if input == "/goal json"@ || input == "/goals json"@ {
        CommandKind::GoalJson
    } else if input == "/goal clear"@ || input == "/goals clear"@ {
        CommandKind::ClearGoal
    } else if input == "/plan"@ {
        CommandKind::ShowPlan
    } else if input == "/plan json"@ {
        CommandKind::PlanJson
    } else if input == "/plan clear"@ {
        CommandKind::ClearPlan
    } else {
        CommandKind::Other
    }
}

/// Whether `r` is the text answer `t`.
pub open spec fn answers(r: Option<GoalCommand>, t: Seq<char>) -> bool {
    match r {
        Some(GoalCommand::Text(x)) => x@ == t,
        _ => false,
    }
}

/// How a store moved under an action whose outcome on values is `step`:
/// on success to the new state (unsaved if `changes`), on failure nowhere.
pub open spec fn moved(before: StoreView, after: StoreView, step: Result<(StateView, Seq<char>), Seq<char>>, r: Result<String, String>, changes: bool) -> bool {
    match r {
        Ok(out) => {
            &&& step == Ok::<(StateView, Seq<char>), Seq<char>>((after.state, out@))
            &&& after.path == before.path
            &&& after.unsaved == (before.unsaved || changes)
        },
        Err(e) => step == Err::<(StateView, Seq<char>), Seq<char>>(e@) && after == before,
    }
}

// ---------------------------------------------------------------------------
// Helpers
// ---------------------------------------------------------------------------

/// A match found in a prefix is the first match of the whole list.
proof fn lemma_find_id_prefix(ids: Seq<Seq<char>>, j: int, id: Seq<char>)
    requires
        0 <= j <= ids.len(),
        find_id(ids.take(j), id) >= 0,
    ensures
        find_id(ids, id) == find_id(ids.take(j), id),
    decreases ids.len() - j,
{
    if j == ids.len() {
        assert(ids.take(j) =~= ids);
    } else {
        assert(ids.take(j + 1).drop_last() =~= ids.take(j));
        lemma_find_id_prefix(ids, j + 1, id);
    }
}

/// The index of the requirement with id `id` (up to ASCII case).
fn find_requirement(reqs: &Vec<Requirement>, id: &str) -> (r: Option<usize>)
    ensures
        match r {
            Some(k) => find_id(req_ids(reqs_view(reqs@)), id@) == k as int && k < reqs@.len(),
            None => find_id(req_ids(reqs_view(reqs@)), id@) == -1,
        },
{
    let ghost ids = req_ids(reqs_view(reqs@));
    let mut i: usize = 0;
    assert(ids.take(0) =~= Seq::<Seq<char>>::empty());
    while i < reqs.len()
        invariant
            i <= reqs@.len(),
            ids == req_ids(reqs_view(reqs@)),
            ids.len() == reqs@.len(),
            find_id(ids.take(i as int), id@) == -1,
        decreases reqs@.len() - i,
    {
        assert(ids.take(i + 1).drop_last() =~= ids.take(i as int));
        assert(ids[i as int] == reqs@[i as int].id@);
        let c = chars_of(reqs[i].id.as_str());
        if eq_ignore_case(c.as_slice(), id) {
            proof {
                lemma_find_id_prefix(ids, i + 1, id@);
            }
            return Some(i);
        }
        i += 1;
    }
    assert(ids.take(i as int) =~= ids);
    None
}

/// The index of the plan step with id `id` (up to ASCII case).
fn find_step(steps: &Vec<PlanStep>, id: &str) -> (r: Option<usize>)
    ensures
        match r {
            Some(k) => find_id(step_ids(steps_view(steps@)), id@) == k as int && k < steps@.len(),
            None => find_id(step_ids(steps_view(steps@)), id@) == -1,
        },
{
    let ghost ids = step_ids(steps_view(steps@));
    let mut i: usize = 0;
    assert(ids.take(0) =~= Seq::<Seq<char>>::empty());
    while i < steps.len()
        invariant
            i <= steps@.len(),
            ids == step_ids(steps_view(steps@)),
            ids.len() == steps@.len(),
            find_id(ids.take(i as int), id@) == -1,
        decreases steps@.len() - i,
    {
        assert(ids.take(i + 1).drop_last() =~= ids.take(i as int));
        assert(ids[i as int] == steps@[i as int].id@);
        let c = chars_of(steps[i].id.as_str());
        if eq_ignore_case(c.as_slice(), id) {
            proof {
                lemma_find_id_prefix(ids, i + 1, id@);
            }
            return Some(i);
        }
        i += 1;
    }
    assert(ids.take(i as int) =~= ids);
    None
}

/// `id text` of each requirement that is not done.
fn incomplete_parts(reqs: &Vec<Requirement>) -> (out: Vec<Vec<char>>)
    ensures
        views(out@) == incomplete_lines(reqs_view(reqs@)),
{
    let ghost rs = reqs_view(reqs@);
    let mut out: Vec<Vec<char>> = Vec::new();
    let mut i: usize = 0;
    assert(rs.take(0) =~= Seq::<ReqView>::empty());
    assert(views(out@) =~= Seq::<Seq<char>>::empty());
    while i < reqs.len()
        invariant
            i <= reqs@.len(),
            rs == reqs_view(reqs@),
            views(out@) == incomplete_lines(rs.take(i as int)),
        decreases reqs@.len() - i,
    {
        assert(rs.take(i + 1).drop_last() =~= rs.take(i as int));
        assert(rs.take(i + 1).last() == req_view(reqs@[i as int]));
        let ghost before = views(out@);
        if reqs[i].status != ItemStatus::Done {
            let mut v = chars_of(reqs[i].id.as_str());
            extend_str(&mut v, " ");
            extend_str(&mut v, reqs[i].text.as_str());
            out.push(v);
            assert(views(out@) =~= before + seq![reqs@[i as int].id@ + " "@ + reqs@[i as int].text@]);
        } else {
            assert(views(out@) =~= before + Seq::<Seq<char>>::empty());
        }
        i += 1;
    }
    assert(rs.take(i as int) =~= rs);
    out
}

/// `prefix` followed by `s`, as a string.
fn prefixed(prefix: &str, s: &[char]) -> (out: String)
    ensures
        out@ == prefix@ + s@,
{
    let mut v = chars_of(prefix);
    extend_chars(&mut v, s);
    string_of(v.as_slice())
}

fn goal_action_kind_of(a: &[char]) -> (k: ActionKind)
    ensures
        k == goal_action_kind(a@),
{
    if chars_eq_str(a, "set") || chars_eq_str(a, "create") || chars_eq_str(a, "reset") {
        ActionKind::Create
    } else if chars_eq_str(a, "add") || chars_eq_str(a, "add_requirement") {
        ActionKind::Add
    } else if chars_eq_str(a, "update") || chars_eq_str(a, "update_requirement") {
        ActionKind::Update
    } else if chars_eq_str(a, "status") || chars_eq_str(a, "set_status") {
        ActionKind::Status
    } else if chars_eq_str(a, "mark_done") || chars_eq_str(a, "done") || chars_eq_str(a, "complete") {
        ActionKind::MarkDone
    } else if chars_eq_str(a, "list") || chars_eq_str(a, "show") {
        ActionKind::List
    } else if chars_eq_str(a, "clear") {
        ActionKind::Clear
    } else {
        ActionKind::Unknown
    }
}

fn plan_action_kind_of(a: &[char]) -> (k: ActionKind)
    ensures
        k == plan_action_kind(a@),
{
    if chars_eq_str(a, "set") || chars_eq_str(a, "create") || chars_eq_str(a, "reset") {
        ActionKind::Create
    } else if chars_eq_str(a, "add") || chars_eq_str(a, "add_step") {
        ActionKind::Add
    } else if chars_eq_str(a, "update") || chars_eq_str(a, "update_step") {
        ActionKind::Update
    } else if chars_eq_str(a, "list") || chars_eq_str(a, "show") {
        ActionKind::List
    } else if chars_eq_str(a, "clear") {
        ActionKind::Clear
    } else {
        ActionKind::Unknown
    }
}

/// The text of a `step`, `task` or `description` argument.
fn step_text_exec(args: &Json) -> (r: Option<&str>)
    ensures
        match r {
            Some(t) => step_text(args@) == Some(t@),
            None => step_text(args@) is None,
        },
{
    match first_present_exec(args, "step", "task", "description") {
        Some(v) => v.as_str(),
        None => None,
    }
}

fn command_kind_of(input: &str) -> (k: CommandKind)
    ensures
        k == command_kind(input@),
{
    let c = chars_of(input);
    let x = c.as_slice();
    if chars_eq_str(x, "/goal") || chars_eq_str(x, "/goals") || chars_eq_str(x, "/todo") || chars_eq_str(x, "/todos") {
        CommandKind::ShowGoal
    } else if chars_eq_str(x, "/goal json") || chars_eq_str(x, "/goals json") {
        CommandKind::GoalJson
    } else if chars_eq_str(x, "/goal clear") || chars_eq_str(x, "/goals clear") {
        CommandKind::ClearGoal
    } else if chars_eq_str(x, "/plan") {
        CommandKind::ShowPlan
    } else if chars_eq_str(x, "/plan json") {
        CommandKind::PlanJson
    } else if chars_eq_str(x, "/plan clear") {
        CommandKind::ClearPlan
    } else {
        CommandKind::Other
    }
}

// ---------------------------------------------------------------------------
// Laws
// ---------------------------------------------------------------------------

proof fn lemma_no_incomplete_all_done(rs: Seq<ReqView>)
    requires
        incomplete_lines(rs).len() == 0,
    ensures
        forall|i: int| 0 <= i < rs.len() ==> (#[trigger] rs[i]).status == ItemStatus::Done,
    decreases rs.len(),
{
    if rs.len() > 0 {
        lemma_no_incomplete_all_done(rs.drop_last());
        assert forall|i: int| 0 <= i < rs.len() implies (#[trigger] rs[i]).status == ItemStatus::Done by {
            if i < rs.len() - 1 {
                assert(rs.drop_last()[i] == rs[i]);
            }
        }
    }
}

/// The done gate holds after every successful `Goal` or `Plan` call that
/// starts where it holds: a goal that is done has requirements, every one of
/// them done, and a record of the check that passed (requirements met,
/// verified, no errors, evidence and checks named). A store starts with no
/// goal, where it holds, and a refused call changes nothing, so it holds in
/// every state a store reaches.
pub proof fn law_calls_keep_done_gate(s: StateView, args: JsonTree, now: u64)
    requires
        state_gate_holds(s),
    ensures
        goal_step(s, args, now) matches Ok((t, _)) ==> state_gate_holds(t),
        plan_step(s, args, now) matches Ok((t, _)) ==> state_gate_holds(t),
{
    if let Some(a) = str_member(args, "action"@) {
        let l = unicode_lowercase(a);
        match goal_action_kind(l) {
            ActionKind::Update => {
                if let Ok(g) = update_req_spec(s.goal, args, now) {
                    let g0 = s.goal->0;
                    let id = str_member(args, "id"@)->0;
                    let k = find_id(req_ids(g0.reqs), id);
                    assert(0 <= k < g0.reqs.len()) by {
                        lemma_find_id_range(req_ids(g0.reqs), id);
                    }
                    if g.status == GoalStatus::Done {
                        assert forall|i: int| 0 <= i < g.reqs.len() implies (#[trigger] g.reqs[i]).status == ItemStatus::Done by {
                            if i != k {
                                assert(g.reqs[i] == g0.reqs[i]);
                            }
                        }
                    }
                }
            },
            ActionKind::MarkDone => {
                if let Ok(g) = mark_done_spec(s.goal, args, now) {
                    lemma_no_incomplete_all_done(g.reqs);
                }
            },
            _ => {},
        }
    }
}

proof fn lemma_find_id_range(ids: Seq<Seq<char>>, id: Seq<char>)
    ensures
        -1 <= find_id(ids, id) < ids.len(),
    decreases ids.len(),
{
    if ids.len() > 0 {
        lemma_find_id_range(ids.drop_last(), id);
    }
}

/// Only `mark_done` makes a goal done: no other `Goal` call, and no `Plan`
/// call, turns a goal that is not done into one that is.
pub proof fn law_only_mark_done_completes(s: StateView, args: JsonTree, now: u64)
    requires
        !(s.goal matches Some(g) && g.status == GoalStatus::Done),
    ensures
        goal_step(s, args, now) matches Ok((t, _)) && t.goal matches Some(g) && g.status == GoalStatus::Done
            ==> goal_action_kind(unicode_lowercase(str_member(args, "action"@)->0)) == ActionKind::MarkDone,
        plan_step(s, args, now) matches Ok((t, _)) ==> !(t.goal matches Some(g) && g.status == GoalStatus::Done),
{
}

/// `Goal` calls leave the plan as it was, and `Plan` calls the goal.
pub proof fn law_goal_and_plan_are_independent(s: StateView, args: JsonTree, now: u64)
    ensures
        goal_step(s, args, now) matches Ok((t, _)) ==> t.plan == s.plan,
        plan_step(s, args, now) matches Ok((t, _)) ==> t.goal == s.goal,
{
}

impl GoalStore {
    /// A store over `state`, saved at `path`. A store whose state was never
    /// saved (a new file, or one that replaced an unreadable file) starts
    /// unsaved.
    pub fn from_state(path: String, state: GoalPlanState, saved: bool) -> (s: Self)
        ensures
            s@ == (StoreView { path: path@, state: state_view(state), unsaved: !saved }),
    {
        GoalStore { path, state, unsaved: !saved }
    }

    /// Where the state is saved.
    pub fn path(&self) -> (p: &str)
        ensures
            p@ == self@.path,
    {
        self.path.as_str()
    }

    /// The current state, to be saved.
    pub fn state(&self) -> (s: &GoalPlanState)
        ensures
            state_view(*s) == self@.state,
    {
        &self.state
    }

    /// Whether the state changed since it was last saved.
    pub fn needs_save(&self) -> (b: bool)
        ensures
            b == self@.unsaved,
    {
        self.unsaved
    }

    /// Record that the state was saved.
    pub fn mark_saved(&mut self)
        ensures
            final(self)@ == (StoreView { unsaved: false, ..old(self)@ }),
    {
        self.unsaved = false;
    }


    /// Run a `Goal` tool call at time `now`: set, add, update, status,
    /// mark_done, list or clear. The answer is the goal's listing (or `goal
    /// cleared`); on an error nothing changes.
    pub fn execute_goal(&mut self, args: &Json, now: u64) -> (r: Result<String, String>)
        ensures
            moved(old(self)@, final(self)@, goal_step(old(self)@.state, args@, now), r, goal_call_changes(args@)),
    {
        let action = match str_arg(args, "action") {
            Ok(a) => a,
            Err(e) => return Err(e),
        };
        let lower = to_lowercase(action);
        let l = chars_of(lower.as_str());
        match goal_action_kind_of(l.as_slice()) {
            ActionKind::Create => self.set_goal(args, now),
            ActionKind::Add => self.add_requirements(args, now),
            ActionKind::Update => self.update_requirement(args, now),
            ActionKind::Status => self.set_goal_status(args, now),
            ActionKind::MarkDone => self.mark_done(args, now),
            ActionKind::List => Ok(self.render_goal()),
            ActionKind::Clear => {
                self.state.goal = None;
                self.state.updated_at = now;
                self.unsaved = true;
                Ok(String::from_str("goal cleared"))
            },
            ActionKind::Unknown => Err(prefixed("unknown Goal action: ", l.as_slice())),
        }
    }

    /// Run a `Plan` tool call at time `now`: set, add, update, list or
    /// clear. The answer is the plan's listing (or `plan cleared`); on an
    /// error nothing changes.
    pub fn execute_plan(&mut self, args: &Json, now: u64) -> (r: Result<String, String>)
        ensures
            moved(old(self)@, final(self)@, plan_step(old(self)@.state, args@, now), r, plan_call_changes(args@)),
    {
        let action = match str_arg(args, "action") {
            Ok(a) => a,
            Err(e) => return Err(e),
        };
        let lower = to_lowercase(action);
        let l = chars_of(lower.as_str());
        match plan_action_kind_of(l.as_slice()) {
            ActionKind::Create => self.set_plan(args, now),
            ActionKind::Add => self.add_plan_step(args, now),
            ActionKind::Update => self.update_plan_step(args, now),
            ActionKind::List => Ok(self.render_plan()),
            ActionKind::Clear => {
                self.state.plan = None;
                self.state.updated_at = now;
                self.unsaved = true;
                Ok(String::from_str("plan cleared"))
            },
            _ => Err(prefixed("unknown Plan action: ", l.as_slice())),
        }
    }

    /// Put `p` in place as the plan at `now`; its listing.
    fn install_plan(&mut self, p: Plan, now: u64) -> (out: String)
        ensures
            final(self)@.state == (StateView { goal: old(self)@.state.goal, plan: Some(plan_view(p)), updated_at: now }),
            final(self)@.path == old(self)@.path,
            final(self)@.unsaved,
            out@ == render_plan_spec(Some(plan_view(p))),
    {
        self.state.plan = Some(p);
        self.state.updated_at = now;
        self.unsaved = true;
        plan_text(&self.state.plan)
    }

    fn set_plan(&mut self, args: &Json, now: u64) -> (r: Result<String, String>)
        ensures
            moved(old(self)@, final(self)@, plan_outcome(old(self)@.state, set_plan_spec(args@, now), now), r, true),
    {
        let summary = match str_arg(args, "summary") {
            Ok(t) => t,
            Err(e) => return Err(e),
        };
        let t = trim_str(summary);
        if t.len() == 0 {
            return Err(String::from_str("plan summary cannot be empty"));
        }
        let steps = match plan_steps_from_value(args.get("steps"), 1) {
            Ok(v) => v,
            Err(e) => return Err(e),
        };
        if steps.len() == 0 {
            return Err(String::from_str("plan requires at least one step"));
        }
        let p = Plan { summary: string_of(t.as_slice()), steps, updated_at: now };
        Ok(self.install_plan(p, now))
    }

    fn add_plan_step(&mut self, args: &Json, now: u64) -> (r: Result<String, String>)
        ensures
            moved(old(self)@, final(self)@, plan_outcome(old(self)@.state, add_step_spec(old(self)@.state.plan, args@, now), now), r, true),
    {
        let n = match &self.state.plan {
            Some(p) => p.steps.len(),
            None => return Err(String::from_str("no active plan")),
        };
        let action = match step_text_exec(args) {
            Some(a) => a,
            None => return Err(String::from_str("missing step/task/description")),
        };
        let t = trim_str(action);
        if t.len() == 0 {
            return Err(String::from_str("plan step cannot be empty"));
        }
        let status = match item_status(args.get("status"), ItemStatus::Pending) {
            Ok(s) => s,
            Err(e) => return Err(e),
        };
        let step = PlanStep {
            id: numbered_exec('P', (n as u128) + 1),
            action: string_of(t.as_slice()),
            tools: string_vec(args, "tools"),
            files: string_vec(args, "files"),
            status,
            notes: str_or_empty(args, "notes"),
        };
        let mut p = self.state.plan.take().unwrap();
        let ghost old_steps = steps_view(p.steps@);
        let ghost sv = step_view(step);
        p.steps.push(step);
        assert(steps_view(p.steps@) =~= old_steps.push(sv));
        p.updated_at = now;
        Ok(self.install_plan(p, now))
    }

    fn update_plan_step(&mut self, args: &Json, now: u64) -> (r: Result<String, String>)
        ensures
            moved(old(self)@, final(self)@, plan_outcome(old(self)@.state, update_step_spec(old(self)@.state.plan, args@, now), now), r, true),
    {
        let id = match str_arg(args, "id") {
            Ok(t) => t,
            Err(e) => return Err(e),
        };
        let (k, current) = match &self.state.plan {
            Some(p) => match find_step(&p.steps, id) {
                Some(k) => (k, p.steps[k].status),
                None => {
                    let idc = chars_of(id);
                    return Err(prefixed("plan step not found: ", idc.as_slice()));
                },
            },
            None => return Err(String::from_str("no active plan")),
        };
        let status = match item_status(args.get("status"), current) {
            Ok(s) => s,
            Err(e) => return Err(e),
        };
        let notes = get_str(args, "notes");
        let action = step_text_exec(args);
        let tools = string_vec(args, "tools");
        let files = string_vec(args, "files");
        let mut p = self.state.plan.take().unwrap();
        let ghost old_steps = steps_view(p.steps@);
        let st = p.steps.remove(k);
        let action = match action {
            Some(a) => {
                let t = trim_str(a);
                if t.len() > 0 {
                    string_of(t.as_slice())
                } else {
                    st.action
                }
            },
            None => st.action,
        };
        let updated = PlanStep {
            id: st.id,
            action,
            tools: if tools.len() > 0 { tools } else { st.tools },
            files: if files.len() > 0 { files } else { st.files },
            status,
            notes: match notes {
                Some(n) => String::from_str(n),
                None => st.notes,
            },
        };
        let ghost uv = step_view(updated);
        p.steps.insert(k, updated);
        assert(steps_view(p.steps@) =~= old_steps.update(k as int, uv));
        p.updated_at = now;
        Ok(self.install_plan(p, now))
    }

    /// Answer a `/goal` or `/plan` command at time `now`; none for any other
    /// input. Clearing changes the state; the rest only read it.
    pub fn command_output(&mut self, input: &str, now: u64) -> (r: Option<GoalCommand>)
        ensures
            match command_kind(input@) {
                CommandKind::ShowGoal => answers(r, render_goal_spec(old(self)@.state.goal)) && final(self)@ == old(self)@,
                CommandKind::GoalJson => r matches Some(GoalCommand::GoalJson) && final(self)@ == old(self)@,
                CommandKind::ClearGoal => answers(r, "goal cleared"@) && final(self)@ == (StoreView {
                    path: old(self)@.path,
                    state: StateView { goal: None, plan: old(self)@.state.plan, updated_at: now },
                    unsaved: true,
                }),
                CommandKind::ShowPlan => answers(r, render_plan_spec(old(self)@.state.plan)) && final(self)@ == old(self)@,
                CommandKind::PlanJson => r matches Some(GoalCommand::PlanJson) && final(self)@ == old(self)@,
                CommandKind::ClearPlan => answers(r, "plan cleared"@) && final(self)@ == (StoreView {
                    path: old(self)@.path,
                    state: StateView { goal: old(self)@.state.goal, plan: None, updated_at: now },
                    unsaved: true,
                }),
                CommandKind::Other => r is None && final(self)@ == old(self)@,
            },
    {
        match command_kind_of(input) {
            CommandKind::ShowGoal => Some(GoalCommand::Text(self.render_goal())),
            CommandKind::GoalJson => Some(GoalCommand::GoalJson),
            CommandKind::ClearGoal => {
                self.state.goal = None;
                self.state.updated_at = now;
                self.unsaved = true;
                Some(GoalCommand::Text(String::from_str("goal cleared")))
            },
            CommandKind::ShowPlan => Some(GoalCommand::Text(self.render_plan())),
            CommandKind::PlanJson => Some(GoalCommand::PlanJson),
            CommandKind::ClearPlan => {
                self.state.plan = None;
                self.state.updated_at = now;
                self.unsaved = true;
                Some(GoalCommand::Text(String::from_str("plan cleared")))
            },
            CommandKind::Other => None,
        }
    }

    /// Put `g` in place as the goal at `now`; its listing.
    fn install_goal(&mut self, g: Goal, now: u64) -> (out: String)
        ensures
            final(self)@.state == (StateView { goal: Some(goal_view(g)), plan: old(self)@.state.plan, updated_at: now }),
            final(self)@.path == old(self)@.path,
            final(self)@.unsaved,
            out@ == render_goal_spec(Some(goal_view(g))),
    {
        self.state.goal = Some(g);
        self.state.updated_at = now;
        self.unsaved = true;
        goal_text(&self.state.goal)
    }

    fn set_goal(&mut self, args: &Json, now: u64) -> (r: Result<String, String>)
        ensures
            moved(old(self)@, final(self)@, goal_outcome(old(self)@.state, set_goal_spec(args@, now), now), r, true),
    {
        let title = match str_arg(args, "title") {
            Ok(t) => t,
            Err(e) => return Err(e),
        };
        let t = trim_str(title);
        if t.len() == 0 {
            return Err(String::from_str("goal title cannot be empty"));
        }
        let requirements = match requirements_from_value(args.get("requirements"), 1) {
            Ok(v) => v,
            Err(e) => return Err(e),
        };
        if requirements.len() == 0 {
            return Err(String::from_str("goal requires at least one requirement"));
        }
        let g = Goal {
            title: string_of(t.as_slice()),
            status: GoalStatus::InProgress,
            requirements,
            done_criteria: string_vec(args, "done_criteria"),
            done_check: None,
            updated_at: now,
        };
        Ok(self.install_goal(g, now))
    }

    fn add_requirements(&mut self, args: &Json, now: u64) -> (r: Result<String, String>)
        ensures
            moved(old(self)@, final(self)@, goal_outcome(old(self)@.state, add_reqs_spec(old(self)@.state.goal, args@, now), now), r, true),
    {
        let n = match &self.state.goal {
            Some(g) => g.requirements.len(),
            None => return Err(String::from_str("no active goal")),
        };
        let next: u128 = (n as u128) + 1;
        let mut added = match requirements_from_value(args.get("requirements"), next) {
            Ok(v) => v,
            Err(e) => return Err(e),
        };
        let ghost listed = reqs_view(added@);
        if added.len() == 0 {
            match get_str(args, "text") {
                Some(text) => {
                    let t = trim_str(text);
                    added.push(Requirement {
                        id: numbered_exec('R', next),
                        text: string_of(t.as_slice()),
                        status: ItemStatus::Pending,
                        evidence: String::new(),
                    });
                },
                None => {},
            }
        }
        assert(reqs_view(added@) =~= added_reqs(args@, listed, next as nat));
        if added.len() == 0 {
            return Err(String::from_str("no requirements provided"));
        }
        let mut g = self.state.goal.take().unwrap();
        let ghost old_reqs = reqs_view(g.requirements@);
        g.requirements.append(&mut added);
        assert(reqs_view(g.requirements@) =~= old_reqs + added_reqs(args@, listed, next as nat));
        g.status = GoalStatus::InProgress;
        g.done_check = None;
        g.updated_at = now;
        Ok(self.install_goal(g, now))
    }


    fn update_requirement(&mut self, args: &Json, now: u64) -> (r: Result<String, String>)
        ensures
            moved(old(self)@, final(self)@, goal_outcome(old(self)@.state, update_req_spec(old(self)@.state.goal, args@, now), now), r, true),
    {
        let id = match str_arg(args, "id") {
            Ok(t) => t,
            Err(e) => return Err(e),
        };
        let status = match item_status(args.get("status"), ItemStatus::InProgress) {
            Ok(s) => s,
            Err(e) => return Err(e),
        };
        let given = str_or_empty(args, "evidence");
        let ev = trim_str(given.as_str());
        if status == ItemStatus::Done && ev.len() == 0 {
            return Err(String::from_str("done requirements need evidence"));
        }
        let k = match &self.state.goal {
            Some(g) => match find_requirement(&g.requirements, id) {
                Some(k) => k,
                None => {
                    let idc = chars_of(id);
                    return Err(prefixed("requirement not found: ", idc.as_slice()));
                },
            },
            None => return Err(String::from_str("no active goal")),
        };
        let mut g = self.state.goal.take().unwrap();
        let ghost old_reqs = reqs_view(g.requirements@);
        let req = g.requirements.remove(k);
        let evidence = if ev.len() > 0 {
            string_of(ev.as_slice())
        } else {
            req.evidence
        };
        let updated = Requirement { id: req.id, text: req.text, status, evidence };
        let ghost uv = req_view(updated);
        g.requirements.insert(k, updated);
        assert(reqs_view(g.requirements@) =~= old_reqs.update(k as int, uv));
        if g.status == GoalStatus::Done && status != ItemStatus::Done {
            g.status = GoalStatus::InProgress;
            g.done_check = None;
        }
        g.updated_at = now;
        Ok(self.install_goal(g, now))
    }

    fn set_goal_status(&mut self, args: &Json, now: u64) -> (r: Result<String, String>)
        ensures
            moved(old(self)@, final(self)@, goal_outcome(old(self)@.state, set_status_spec(old(self)@.state.goal, args@, now), now), r, true),
    {
        let given = match str_arg(args, "status") {
            Ok(t) => t,
            Err(e) => return Err(e),
        };
        let lower = to_lowercase(given);
        let l = chars_of(lower.as_str());
        if chars_eq_str(l.as_slice(), "done") {
            return Err(String::from_str("use Goal action mark_done so the done gate can verify requirements and checks"));
        }
        match &self.state.goal {
            Some(_) => {},
            None => return Err(String::from_str("no active goal")),
        }
        let status = if chars_eq_str(l.as_slice(), "in_progress") || chars_eq_str(l.as_slice(), "progress")
            || chars_eq_str(l.as_slice(), "active") {
            GoalStatus::InProgress
        } else if chars_eq_str(l.as_slice(), "blocked") {
            GoalStatus::Blocked
        } else {
            return Err(prefixed("unknown goal status: ", l.as_slice()));
        };
        let mut g = self.state.goal.take().unwrap();
        g.status = status;
        g.updated_at = now;
        Ok(self.install_goal(g, now))
    }

    fn mark_done(&mut self, args: &Json, now: u64) -> (r: Result<String, String>)
        ensures
            moved(old(self)@, final(self)@, goal_outcome(old(self)@.state, mark_done_spec(old(self)@.state.goal, args@, now), now), r, true),
    {
        match &self.state.goal {
            Some(g) => {
                if g.requirements.len() == 0 {
                    return Err(String::from_str("cannot mark done: goal has no requirements"));
                }
                let parts = incomplete_parts(&g.requirements);
                if parts.len() > 0 {
                    let j = join_parts(&parts, "; ");
                    return Err(prefixed("cannot mark done: incomplete requirements remain: ", j.as_slice()));
                }
            },
            None => return Err(String::from_str("no active goal")),
        }
        if !bool_arg(args, "requirements_met", false) {
            return Err(String::from_str("cannot mark done: requirements_met must be true"));
        }
        if !bool_arg(args, "verified", false) {
            return Err(String::from_str("cannot mark done: verified must be true after checks pass"));
        }
        if !bool_arg(args, "no_errors", false) {
            return Err(String::from_str("cannot mark done: no_errors must be true"));
        }
        let evidence_keys: [&'static str; 2] = ["evidence", "deliverables"];
        assert(evidence_keys@ =~= seq!["evidence", "deliverables"]);
        let evidence = multi_key_string_vec(args, &evidence_keys);
        if evidence.len() == 0 {
            return Err(String::from_str("cannot mark done: provide evidence of completed requirements"));
        }
        let check_keys: [&'static str; 3] = ["checks", "verification", "commands"];
        assert(check_keys@ =~= seq!["checks", "verification", "commands"]);
        let checks = multi_key_string_vec(args, &check_keys);
        if checks.len() == 0 {
            return Err(String::from_str("cannot mark done: provide verification checks"));
        }
        let notes = str_or_empty(args, "notes");
        let mut g = self.state.goal.take().unwrap();
        g.status = GoalStatus::Done;
        g.done_check = Some(DoneCheck { requirements_met: true, verified: true, no_errors: true, evidence, checks, notes, at: now });
        g.updated_at = now;
        Ok(self.install_goal(g, now))
    }

    /// The goal as listed by `/goal`.
    pub fn render_goal(&self) -> (out: String)
        ensures
            out@ == render_goal_spec(self@.state.goal),
    {
        goal_text(&self.state.goal)
    }

    /// The plan as listed by `/plan`.
    pub fn render_plan(&self) -> (out: String)
        ensures
            out@ == render_plan_spec(self@.state.plan),
    {
        plan_text(&self.state.plan)
    }

    fn compact_snapshot(&self) -> (out: Vec<char>)
        ensures
            out@ == compact_snapshot_spec(self@.state),
    {
        let g = self.render_goal();
        let p = self.render_plan();
        let mut v = chars_of(g.as_str());
        extend_str(&mut v, "\n");
        extend_str(&mut v, p.as_str());
        truncate_with_dots(v.as_slice(), 3000)
    }

    /// The goal-planning system prompt, with the current goal and plan.
    pub fn system_prompt(&self) -> (out: String)
        ensures
            out@ == system_prompt_spec(self@.state),
    {
        let mut v = chars_of(GOAL_PROMPT_HEAD);
        let snap = self.compact_snapshot();
        extend_chars(&mut v, snap.as_slice());
        extend_str(&mut v, GOAL_PROMPT_TAIL);
        string_of(v.as_slice())
    }
}

} // verus!

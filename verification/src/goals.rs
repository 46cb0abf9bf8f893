//! Goals and plans: the agent's todo list of user requirements and its plan
//! of steps, changed through `Goal` and `Plan` tool calls and slash commands.
//! A goal is only marked done through the done gate: every requirement done,
//! the checks named, and no known errors.
use vstd::prelude::*;
use crate::json::{as_array, as_str, bool_arg, bool_member, get, get_str, str_member, Json, JsonTree};
use crate::text::{
    chars_eq_str, chars_of, decimal, decimal_string, eq_ignore_ascii_case, eq_ignore_case,
    extend_chars, extend_str, join, join_parts, string_of, to_lowercase, trim, trim_end,
    trim_end_index, trim_str, truncate_dots, truncate_with_dots, unicode_lowercase, views,
};

verus! {

broadcast use vstd::string::group_string_axioms;

#[derive(Clone, Copy, Debug, PartialEq, Eq, Structural)]
pub enum GoalStatus {
    InProgress,
    Blocked,
    Done,
}

#[derive(Clone, Copy, Debug, PartialEq, Eq, Structural)]
pub enum ItemStatus {
    Pending,
    InProgress,
    Done,
    Blocked,
}

pub struct Requirement {
    pub id: String,
    pub text: String,
    pub status: ItemStatus,
    pub evidence: String,
}

pub struct DoneCheck {
    pub requirements_met: bool,
    pub verified: bool,
    pub no_errors: bool,
    pub evidence: Vec<String>,
    pub checks: Vec<String>,
    pub notes: String,
    pub at: u64,
}

pub struct Goal {
    pub title: String,
    pub status: GoalStatus,
    pub requirements: Vec<Requirement>,
    pub done_criteria: Vec<String>,
    pub done_check: Option<DoneCheck>,
    pub updated_at: u64,
}

pub struct PlanStep {
    pub id: String,
    pub action: String,
    pub tools: Vec<String>,
    pub files: Vec<String>,
    pub status: ItemStatus,
    pub notes: String,
}

pub struct Plan {
    pub summary: String,
    pub steps: Vec<PlanStep>,
    pub updated_at: u64,
}

/// Everything saved in `goal_plan.json`.
pub struct GoalPlanState {
    pub goal: Option<Goal>,
    pub plan: Option<Plan>,
    pub updated_at: u64,
}

pub open spec fn strings_view(v: Seq<String>) -> Seq<Seq<char>> {
    v.map_values(|s: String| s@)
}

/// A requirement as values.
pub struct ReqView {
    pub id: Seq<char>,
    pub text: Seq<char>,
    pub status: ItemStatus,
    pub evidence: Seq<char>,
}

pub open spec fn req_view(r: Requirement) -> ReqView {
    ReqView { id: r.id@, text: r.text@, status: r.status, evidence: r.evidence@ }
}

pub open spec fn reqs_view(v: Seq<Requirement>) -> Seq<ReqView> {
    v.map_values(|r: Requirement| req_view(r))
}

/// A plan step as values.
pub struct StepView {
    pub id: Seq<char>,
    pub action: Seq<char>,
    pub tools: Seq<Seq<char>>,
    pub files: Seq<Seq<char>>,
    pub status: ItemStatus,
    pub notes: Seq<char>,
}

pub open spec fn step_view(s: PlanStep) -> StepView {
    StepView {
        id: s.id@,
        action: s.action@,
        tools: strings_view(s.tools@),
        files: strings_view(s.files@),
        status: s.status,
        notes: s.notes@,
    }
}

pub open spec fn steps_view(v: Seq<PlanStep>) -> Seq<StepView> {
    v.map_values(|s: PlanStep| step_view(s))
}

// ---------------------------------------------------------------------------
// Names
// ---------------------------------------------------------------------------

pub open spec fn goal_status_text(s: GoalStatus) -> Seq<char> {
    match s {
        GoalStatus::InProgress => "in_progress"@,
        GoalStatus::Blocked => "blocked"@,
        GoalStatus::Done => "done"@,
    }
}

pub open spec fn item_status_text(s: ItemStatus) -> Seq<char> {
    match s {
        ItemStatus::Pending => "pending"@,
        ItemStatus::InProgress => "in_progress"@,
        ItemStatus::Done => "done"@,
        ItemStatus::Blocked => "blocked"@,
    }
}

pub fn goal_status_name(s: GoalStatus) -> (n: &'static str)
    ensures
        n@ == goal_status_text(s),
{
    match s {
        GoalStatus::InProgress => "in_progress",
        GoalStatus::Blocked => "blocked",
        GoalStatus::Done => "done",
    }
}

pub fn item_status_name(s: ItemStatus) -> (n: &'static str)
    ensures
        n@ == item_status_text(s),
{
    match s {
        ItemStatus::Pending => "pending",
        ItemStatus::InProgress => "in_progress",
        ItemStatus::Done => "done",
        ItemStatus::Blocked => "blocked",
    }
}

// ---------------------------------------------------------------------------
// Reading tool arguments
// ---------------------------------------------------------------------------

/// The item status a value names (case-insensitively), `default` when there
/// is no string; an error for an unknown name.
pub open spec fn item_status_spec(value: Option<JsonTree>, default: ItemStatus) -> Result<ItemStatus, Seq<char>> {
    match value {
        None => Ok(default),
        Some(v) => match as_str(v) {
            None => Ok(default),
            Some(s) => {
                let l = unicode_lowercase(s);
                if l == "pending"@ || l == "todo"@ || l == "not_started"@ {
                    Ok(ItemStatus::Pending)
                } else if l == "in_progress"@ || l == "progress"@ || l == "active"@ || l == "doing"@ {
                    Ok(ItemStatus::InProgress)
                } else if l == "done"@ || l == "complete"@ || l == "completed"@ {
                    Ok(ItemStatus::Done)
                } else if l == "blocked"@ {
                    Ok(ItemStatus::Blocked)
                } else {
                    Err("unknown item status: "@ + s)
                }
            },
        },
    }
}

pub open spec fn opt_tree(v: Option<&Json>) -> Option<JsonTree> {
    match v {
        Some(j) => Some(j@),
        None => None,
    }
}

pub fn item_status(value: Option<&Json>, default: ItemStatus) -> (r: Result<ItemStatus, String>)
    ensures
        match r {
            Ok(s) => item_status_spec(opt_tree(value), default) == Ok::<ItemStatus, Seq<char>>(s),
            Err(e) => item_status_spec(opt_tree(value), default) == Err::<ItemStatus, Seq<char>>(e@),
        },
{
    let v = match value {
        Some(v) => v,
        None => return Ok(default),
    };
    let s = match v.as_str() {
        Some(s) => s,
        None => return Ok(default),
    };
    let l = to_lowercase(s);
    let c = chars_of(l.as_str());
    let x = c.as_slice();
    if chars_eq_str(x, "pending") || chars_eq_str(x, "todo") || chars_eq_str(x, "not_started") {
        Ok(ItemStatus::Pending)
    } else if chars_eq_str(x, "in_progress") || chars_eq_str(x, "progress") || chars_eq_str(x, "active")
        || chars_eq_str(x, "doing") {
        Ok(ItemStatus::InProgress)
    } else if chars_eq_str(x, "done") || chars_eq_str(x, "complete") || chars_eq_str(x, "completed") {
        Ok(ItemStatus::Done)
    } else if chars_eq_str(x, "blocked") {
        Ok(ItemStatus::Blocked)
    } else {
        let mut v = chars_of("unknown item status: ");
        extend_str(&mut v, s);
        Err(string_of(v.as_slice()))
    }
}

/// The trimmed, non-empty strings of an array.
pub open spec fn array_strings(items: Seq<JsonTree>) -> Seq<Seq<char>>
    decreases items.len(),
{
    if items.len() == 0 {
        Seq::empty()
    } else {
        array_strings(items.drop_last()) + match as_str(items.last()) {
            Some(s) => if trim(s).len() > 0 { seq![trim(s)] } else { Seq::empty() },
            None => Seq::empty(),
        }
    }
}

/// A list of strings from an array of strings, or from one non-blank string.
pub open spec fn value_strings(value: Option<JsonTree>) -> Seq<Seq<char>> {
    match value {
        Some(JsonTree::Array(items)) => array_strings(items),
        Some(JsonTree::Str(t)) => if trim(t).len() > 0 { seq![trim(t)] } else { Seq::empty() },
        _ => Seq::empty(),
    }
}

pub fn value_string_vec(value: Option<&Json>) -> (out: Vec<String>)
    ensures
        strings_view(out@) == value_strings(opt_tree(value)),
{
    let v = match value {
        Some(v) => v,
        None => return Vec::new(),
    };
    match v.as_array() {
        Some(items) => {
            let ghost ts = crate::json::trees_of(items@);
            let mut out: Vec<String> = Vec::new();
            let mut i: usize = 0;
            while i < items.len()
                invariant
                    i <= items@.len(),
                    ts == crate::json::trees_of(items@),
                    ts.len() == items@.len(),
                    forall|k: int| 0 <= k < items@.len() ==> #[trigger] ts[k] == items@[k]@,
                    strings_view(out@) == array_strings(ts.take(i as int)),
                decreases items@.len() - i,
            {
                assert(ts.take(i + 1).drop_last() =~= ts.take(i as int));
                assert(ts.take(i + 1).last() == items@[i as int]@);
                let ghost before = strings_view(out@);
                match items[i].as_str() {
                    Some(s) => {
                        let t = trim_str(s);
                        if t.len() > 0 {
                            out.push(string_of(t.as_slice()));
                            assert(strings_view(out@) =~= before + seq![t@]);
                        } else {
                            assert(strings_view(out@) =~= before + Seq::<Seq<char>>::empty());
                        }
                    },
                    None => {
                        assert(strings_view(out@) =~= before + Seq::<Seq<char>>::empty());
                    },
                }
                i += 1;
            }
            assert(ts.take(i as int) =~= ts);
            assert(v@ == JsonTree::Array(ts));
            out
        },
        None => match v.as_str() {
            Some(t) => {
                let tt = trim_str(t);
                if tt.len() > 0 {
                    let mut out: Vec<String> = Vec::new();
                    out.push(string_of(tt.as_slice()));
                    assert(strings_view(out@) =~= seq![tt@]);
                    out
                } else {
                    Vec::new()
                }
            },
            None => {
                assert(!(v@ is Array) && !(v@ is Str));
                Vec::new()
            },
        },
    }
}

pub fn string_vec(args: &Json, key: &str) -> (out: Vec<String>)
    ensures
        strings_view(out@) == value_strings(get(args@, key@)),
{
    value_string_vec(args.get(key))
}

/// The strings under the first of `keys` that gives any.
pub open spec fn first_strings(args: JsonTree, keys: Seq<&'static str>) -> Seq<Seq<char>>
    decreases keys.len(),
{
    if keys.len() == 0 {
        Seq::empty()
    } else if value_strings(get(args, keys[0]@)).len() > 0 {
        value_strings(get(args, keys[0]@))
    } else {
        first_strings(args, keys.drop_first())
    }
}

pub fn multi_key_string_vec(args: &Json, keys: &[&'static str]) -> (out: Vec<String>)
    ensures
        strings_view(out@) == first_strings(args@, keys@),
{
    let mut i: usize = 0;
    assert(keys@.skip(0) =~= keys@);
    while i < keys.len()
        invariant
            i <= keys@.len(),
            first_strings(args@, keys@) == first_strings(args@, keys@.skip(i as int)),
        decreases keys@.len() - i,
    {
        assert(keys@.skip(i as int)[0] == keys@[i as int]);
        assert(keys@.skip(i as int).drop_first() =~= keys@.skip(i + 1));
        let values = string_vec(args, keys[i]);
        if values.len() > 0 {
            return values;
        }
        i += 1;
    }
    Vec::new()
}

/// The first of three members that is present (whatever its type).
pub open spec fn first_present(t: JsonTree, a: Seq<char>, b: Seq<char>, c: Seq<char>) -> Option<JsonTree> {
    if get(t, a) is Some {
        get(t, a)
    } else if get(t, b) is Some {
        get(t, b)
    } else {
        get(t, c)
    }
}

pub fn first_present_exec<'a>(t: &'a Json, a: &str, b: &str, c: &str) -> (r: Option<&'a Json>)
    ensures
        opt_tree(r) == first_present(t@, a@, b@, c@),
{
    match t.get(a) {
        Some(v) => Some(v),
        None => match t.get(b) {
            Some(v) => Some(v),
            None => t.get(c),
        },
    }
}

pub open spec fn opt_str(v: Option<JsonTree>) -> Option<Seq<char>> {
    match v {
        Some(x) => as_str(x),
        None => None,
    }
}

pub open spec fn or_empty(o: Option<Seq<char>>) -> Seq<char> {
    match o {
        Some(s) => s,
        None => Seq::empty(),
    }
}

pub fn str_or_empty(args: &Json, key: &str) -> (s: String)
    ensures
        s@ == or_empty(str_member(args@, key@)),
{
    match get_str(args, key) {
        Some(x) => String::from_str(x),
        None => String::new(),
    }
}

/// The string argument `key`, or an error naming it.
pub fn str_arg<'a>(args: &'a Json, key: &str) -> (r: Result<&'a str, String>)
    ensures
        match r {
            Ok(s) => str_member(args@, key@) == Some(s@),
            Err(e) => str_member(args@, key@) is None && e@ == "missing string arg: "@ + key@,
        },
{
    match get_str(args, key) {
        Some(s) => Ok(s),
        None => {
            let mut v = chars_of("missing string arg: ");
            extend_str(&mut v, key);
            Err(string_of(v.as_slice()))
        },
    }
}

pub open spec fn or_default(o: Option<Seq<char>>, d: Seq<char>) -> Seq<char> {
    match o {
        Some(s) => s,
        None => d,
    }
}

/// `prefix` followed by the number `n`: `R1`, `P2`, …
pub open spec fn numbered(prefix: char, n: nat) -> Seq<char> {
    seq![prefix] + decimal(n)
}

pub fn numbered_exec(prefix: char, n: u128) -> (s: String)
    ensures
        s@ == numbered(prefix, n as nat),
{
    let mut v = vec![prefix];
    let d = crate::text::decimal_string_u128(n);
    extend_chars(&mut v, d.as_slice());
    assert(v@ =~= seq![prefix] + decimal(n as nat));
    string_of(v.as_slice())
}

/// One requirement item: a string, or an object with text (or requirement,
/// or task), and optionally id, status and evidence. Blank text is dropped.
pub open spec fn req_item(item: JsonTree, n: nat) -> Result<Option<ReqView>, Seq<char>> {
    let id = numbered('R', n);
    match as_str(item) {
        Some(text) => if trim(text).len() > 0 {
            Ok(Some(ReqView { id, text: trim(text), status: ItemStatus::Pending, evidence: Seq::empty() }))
        } else {
            Ok(None)
        },
        None => match opt_str(first_present(item, "text"@, "requirement"@, "task"@)) {
            None => Err("requirement object needs text/requirement/task"@),
            Some(text) => match item_status_spec(get(item, "status"@), ItemStatus::Pending) {
                Err(e) => Err(e),
                Ok(st) => if trim(text).len() > 0 {
                    Ok(Some(ReqView {
                        id: or_default(str_member(item, "id"@), id),
                        text: trim(text),
                        status: st,
                        evidence: or_empty(str_member(item, "evidence"@)),
                    }))
                } else {
                    Ok(None)
                },
            },
        },
    }
}

pub open spec fn reqs_fold(items: Seq<JsonTree>, start: nat) -> Result<Seq<ReqView>, Seq<char>>
    decreases items.len(),
{
    if items.len() == 0 {
        Ok(Seq::empty())
    } else {
        match reqs_fold(items.drop_last(), start) {
            Err(e) => Err(e),
            Ok(acc) => match req_item(items.last(), (start + items.len() - 1) as nat) {
                Err(e) => Err(e),
                Ok(Some(r)) => Ok(acc.push(r)),
                Ok(None) => Ok(acc),
            },
        }
    }
}

/// The requirements a `requirements` argument lists, numbered from `start`.
pub open spec fn requirements_spec(value: Option<JsonTree>, start: nat) -> Result<Seq<ReqView>, Seq<char>> {
    match value {
        None => Ok(Seq::empty()),
        Some(v) => match as_array(v) {
            None => Err("requirements must be an array"@),
            Some(items) => reqs_fold(items, start),
        },
    }
}

fn req_item_exec(item: &Json, n: u128) -> (r: Result<Option<Requirement>, String>)
    ensures
        match r {
            Ok(Some(q)) => req_item(item@, n as nat) == Ok::<Option<ReqView>, Seq<char>>(Some(req_view(q))),
            Ok(None) => req_item(item@, n as nat) == Ok::<Option<ReqView>, Seq<char>>(None),
            Err(e) => req_item(item@, n as nat) == Err::<Option<ReqView>, Seq<char>>(e@),
        },
{
    let id = numbered_exec('R', n);
    match item.as_str() {
        Some(text) => {
            let t = trim_str(text);
            if t.len() > 0 {
                Ok(Some(Requirement { id, text: string_of(t.as_slice()), status: ItemStatus::Pending, evidence: String::new() }))
            } else {
                Ok(None)
            }
        },
        None => {
            let text = match first_present_exec(item, "text", "requirement", "task") {
                Some(v) => v.as_str(),
                None => None,
            };
            let text = match text {
                Some(t) => t,
                None => return Err(String::from_str("requirement object needs text/requirement/task")),
            };
            let status = match item_status(item.get("status"), ItemStatus::Pending) {
                Ok(s) => s,
                Err(e) => return Err(e),
            };
            let t = trim_str(text);
            if t.len() == 0 {
                return Ok(None);
            }
            let id = match get_str(item, "id") {
                Some(x) => String::from_str(x),
                None => id,
            };
            Ok(Some(Requirement { id, text: string_of(t.as_slice()), status, evidence: str_or_empty(item, "evidence") }))
        },
    }
}

/// Read a `requirements` argument, numbering new requirements from `start`.
pub fn requirements_from_value(value: Option<&Json>, start: u128) -> (r: Result<Vec<Requirement>, String>)
    requires
        start <= usize::MAX + 1,
    ensures
        match r {
            Ok(v) => requirements_spec(opt_tree(value), start as nat) == Ok::<Seq<ReqView>, Seq<char>>(reqs_view(v@)),
            Err(e) => requirements_spec(opt_tree(value), start as nat) == Err::<Seq<ReqView>, Seq<char>>(e@),
        },
{
    let v = match value {
        Some(v) => v,
        None => {
            let out: Vec<Requirement> = Vec::new();
            assert(reqs_view(out@) =~= Seq::<ReqView>::empty());
            return Ok(out);
        },
    };
    let items = match v.as_array() {
        Some(items) => items,
        None => return Err(String::from_str("requirements must be an array")),
    };
    let ghost ts = crate::json::trees_of(items@);
    let mut out: Vec<Requirement> = Vec::new();
    let mut i: usize = 0;
    assert(ts.take(0) =~= Seq::<JsonTree>::empty());
    assert(reqs_view(out@) =~= Seq::empty());
    assert(requirements_spec(opt_tree(value), start as nat) == reqs_fold(ts, start as nat));
    while i < items.len()
        invariant
            i <= items@.len(),
            start <= usize::MAX + 1,
            requirements_spec(opt_tree(value), start as nat) == reqs_fold(ts, start as nat),
            ts == crate::json::trees_of(items@),
            ts.len() == items@.len(),
            forall|k: int| 0 <= k < items@.len() ==> #[trigger] ts[k] == items@[k]@,
            reqs_fold(ts.take(i as int), start as nat) == Ok::<Seq<ReqView>, Seq<char>>(reqs_view(out@)),
        decreases items@.len() - i,
    {
        assert(ts.take(i + 1).drop_last() =~= ts.take(i as int));
        assert(ts.take(i + 1).last() == items@[i as int]@);
        let n: u128 = start + (i as u128);
        let ghost before = reqs_view(out@);
        match req_item_exec(&items[i], n) {
            Ok(Some(q)) => {
                out.push(q);
                assert(reqs_view(out@) =~= before.push(req_view(q)));
            },
            Ok(None) => {},
            Err(e) => {
                proof {
                    lemma_reqs_err(ts, i as int + 1, start as nat, e@);
                }
                return Err(e);
            },
        }
        i += 1;
    }
    assert(ts.take(i as int) =~= ts);
    Ok(out)
}

proof fn lemma_reqs_err(items: Seq<JsonTree>, k: int, start: nat, e: Seq<char>)
    requires
        0 <= k <= items.len(),
        reqs_fold(items.take(k), start) == Err::<Seq<ReqView>, Seq<char>>(e),
    ensures
        reqs_fold(items, start) == Err::<Seq<ReqView>, Seq<char>>(e),
    decreases items.len() - k,
{
    if k < items.len() {
        assert(items.take(k + 1).drop_last() =~= items.take(k));
        lemma_reqs_err(items, k + 1, start, e);
    } else {
        assert(items.take(k) =~= items);
    }
}

/// One plan step item: a string, or an object with action (or step, or
/// task), and optionally id, tools, files, status and notes. Blank actions
/// are dropped.
pub open spec fn step_item(item: JsonTree, n: nat) -> Result<Option<StepView>, Seq<char>> {
    let id = numbered('P', n);
    match as_str(item) {
        Some(action) => if trim(action).len() > 0 {
            Ok(Some(StepView { id, action: trim(action), tools: Seq::empty(), files: Seq::empty(), status: ItemStatus::Pending, notes: Seq::empty() }))
        } else {
            Ok(None)
        },
        None => match opt_str(first_present(item, "action"@, "step"@, "task"@)) {
            None => Err("plan step object needs action/step/task"@),
            Some(action) => if trim(action).len() == 0 {
                Ok(None)
            } else {
                match item_status_spec(get(item, "status"@), ItemStatus::Pending) {
                    Err(e) => Err(e),
                    Ok(st) => Ok(Some(StepView {
                        id: or_default(str_member(item, "id"@), id),
                        action: trim(action),
                        tools: value_strings(get(item, "tools"@)),
                        files: value_strings(get(item, "files"@)),
                        status: st,
                        notes: or_empty(str_member(item, "notes"@)),
                    })),
                }
            },
        },
    }
}

pub open spec fn steps_fold(items: Seq<JsonTree>, start: nat) -> Result<Seq<StepView>, Seq<char>>
    decreases items.len(),
{
    if items.len() == 0 {
        Ok(Seq::empty())
    } else {
        match steps_fold(items.drop_last(), start) {
            Err(e) => Err(e),
            Ok(acc) => match step_item(items.last(), (start + items.len() - 1) as nat) {
                Err(e) => Err(e),
                Ok(Some(r)) => Ok(acc.push(r)),
                Ok(None) => Ok(acc),
            },
        }
    }
}

/// The plan steps a `steps` argument lists, numbered from `start`.
pub open spec fn steps_spec(value: Option<JsonTree>, start: nat) -> Result<Seq<StepView>, Seq<char>> {
    match value {
        None => Ok(Seq::empty()),
        Some(v) => match as_array(v) {
            None => Err("steps must be an array"@),
            Some(items) => steps_fold(items, start),
        },
    }
}

fn step_item_exec(item: &Json, n: u128) -> (r: Result<Option<PlanStep>, String>)
    ensures
        match r {
            Ok(Some(q)) => step_item(item@, n as nat) == Ok::<Option<StepView>, Seq<char>>(Some(step_view(q))),
            Ok(None) => step_item(item@, n as nat) == Ok::<Option<StepView>, Seq<char>>(None),
            Err(e) => step_item(item@, n as nat) == Err::<Option<StepView>, Seq<char>>(e@),
        },
{
    let id = numbered_exec('P', n);
    match item.as_str() {
        Some(action) => {
            let t = trim_str(action);
            if t.len() > 0 {
                let tools: Vec<String> = Vec::new();
                let files: Vec<String> = Vec::new();
                assert(strings_view(tools@) =~= Seq::<Seq<char>>::empty());
                Ok(Some(PlanStep { id, action: string_of(t.as_slice()), tools, files, status: ItemStatus::Pending, notes: String::new() }))
            } else {
                Ok(None)
            }
        },
        None => {
            let action = match first_present_exec(item, "action", "step", "task") {
                Some(v) => v.as_str(),
                None => None,
            };
            let action = match action {
                Some(t) => t,
                None => return Err(String::from_str("plan step object needs action/step/task")),
            };
            let t = trim_str(action);
            if t.len() == 0 {
                return Ok(None);
            }
            let status = match item_status(item.get("status"), ItemStatus::Pending) {
                Ok(s) => s,
                Err(e) => return Err(e),
            };
            let id = match get_str(item, "id") {
                Some(x) => String::from_str(x),
                None => id,
            };
            Ok(Some(PlanStep {
                id,
                action: string_of(t.as_slice()),
                tools: value_string_vec(item.get("tools")),
                files: value_string_vec(item.get("files")),
                status,
                notes: str_or_empty(item, "notes"),
            }))
        },
    }
}

/// Read a `steps` argument, numbering new steps from `start`.
pub fn plan_steps_from_value(value: Option<&Json>, start: u128) -> (r: Result<Vec<PlanStep>, String>)
    requires
        start <= usize::MAX + 1,
    ensures
        match r {
            Ok(v) => steps_spec(opt_tree(value), start as nat) == Ok::<Seq<StepView>, Seq<char>>(steps_view(v@)),
            Err(e) => steps_spec(opt_tree(value), start as nat) == Err::<Seq<StepView>, Seq<char>>(e@),
        },
{
    let v = match value {
        Some(v) => v,
        None => {
            let out: Vec<PlanStep> = Vec::new();
            assert(steps_view(out@) =~= Seq::<StepView>::empty());
            return Ok(out);
        },
    };
    let items = match v.as_array() {
        Some(items) => items,
        None => return Err(String::from_str("steps must be an array")),
    };
    let ghost ts = crate::json::trees_of(items@);
    let mut out: Vec<PlanStep> = Vec::new();
    let mut i: usize = 0;
    assert(ts.take(0) =~= Seq::<JsonTree>::empty());
    assert(steps_view(out@) =~= Seq::empty());
    assert(steps_spec(opt_tree(value), start as nat) == steps_fold(ts, start as nat));
    while i < items.len()
        invariant
            i <= items@.len(),
            start <= usize::MAX + 1,
            steps_spec(opt_tree(value), start as nat) == steps_fold(ts, start as nat),
            ts == crate::json::trees_of(items@),
            ts.len() == items@.len(),
            forall|k: int| 0 <= k < items@.len() ==> #[trigger] ts[k] == items@[k]@,
            steps_fold(ts.take(i as int), start as nat) == Ok::<Seq<StepView>, Seq<char>>(steps_view(out@)),
        decreases items@.len() - i,
    {
        assert(ts.take(i + 1).drop_last() =~= ts.take(i as int));
        assert(ts.take(i + 1).last() == items@[i as int]@);
        let n: u128 = start + (i as u128);
        let ghost before = steps_view(out@);
        match step_item_exec(&items[i], n) {
            Ok(Some(q)) => {
                out.push(q);
                assert(steps_view(out@) =~= before.push(step_view(q)));
            },
            Ok(None) => {},
            Err(e) => {
                proof {
                    lemma_steps_err(ts, i as int + 1, start as nat, e@);
                }
                return Err(e);
            },
        }
        i += 1;
    }
    assert(ts.take(i as int) =~= ts);
    Ok(out)
}

proof fn lemma_steps_err(items: Seq<JsonTree>, k: int, start: nat, e: Seq<char>)
    requires
        0 <= k <= items.len(),
        steps_fold(items.take(k), start) == Err::<Seq<StepView>, Seq<char>>(e),
    ensures
        steps_fold(items, start) == Err::<Seq<StepView>, Seq<char>>(e),
    decreases items.len() - k,
{
    if k < items.len() {
        assert(items.take(k + 1).drop_last() =~= items.take(k));
        lemma_steps_err(items, k + 1, start, e);
    } else {
        assert(items.take(k) =~= items);
    }
}

// ---------------------------------------------------------------------------
// State as values
// ---------------------------------------------------------------------------

pub struct DoneView {
    pub requirements_met: bool,
    pub verified: bool,
    pub no_errors: bool,
    pub evidence: Seq<Seq<char>>,
    pub checks: Seq<Seq<char>>,
    pub notes: Seq<char>,
    pub at: u64,
}

pub struct GoalView {
    pub title: Seq<char>,
    pub status: GoalStatus,
    pub reqs: Seq<ReqView>,
    pub criteria: Seq<Seq<char>>,
    pub done: Option<DoneView>,
    pub updated_at: u64,
}

pub struct PlanView {
    pub summary: Seq<char>,
    pub steps: Seq<StepView>,
    pub updated_at: u64,
}

pub struct StateView {
    pub goal: Option<GoalView>,
    pub plan: Option<PlanView>,
    pub updated_at: u64,
}

pub open spec fn done_view(d: DoneCheck) -> DoneView {
    DoneView {
        requirements_met: d.requirements_met,
        verified: d.verified,
        no_errors: d.no_errors,
        evidence: strings_view(d.evidence@),
        checks: strings_view(d.checks@),
        notes: d.notes@,
        at: d.at,
    }
}

pub open spec fn goal_view(g: Goal) -> GoalView {
    GoalView {
        title: g.title@,
        status: g.status,
        reqs: reqs_view(g.requirements@),
        criteria: strings_view(g.done_criteria@),
        done: match g.done_check {
            Some(d) => Some(done_view(d)),
            None => None,
        },
        updated_at: g.updated_at,
    }
}

pub open spec fn plan_view(p: Plan) -> PlanView {
    PlanView { summary: p.summary@, steps: steps_view(p.steps@), updated_at: p.updated_at }
}

pub open spec fn state_view(s: GoalPlanState) -> StateView {
    StateView {
        goal: match s.goal {
            Some(g) => Some(goal_view(g)),
            None => None,
        },
        plan: match s.plan {
            Some(p) => Some(plan_view(p)),
            None => None,
        },
        updated_at: s.updated_at,
    }
}

/// The done gate: a goal marked done has requirements, every one of them
/// done, and a record of the check that passed: requirements met, verified
/// and free of errors, with evidence and checks named.
pub open spec fn done_gate_holds(g: GoalView) -> bool {
    g.status == GoalStatus::Done ==> {
        &&& g.reqs.len() > 0
        &&& forall|i: int| 0 <= i < g.reqs.len() ==> (#[trigger] g.reqs[i]).status == ItemStatus::Done
        &&& g.done matches Some(d) && d.requirements_met && d.verified && d.no_errors && d.evidence.len() > 0
            && d.checks.len() > 0
    }
}

pub open spec fn state_gate_holds(s: StateView) -> bool {
    match s.goal {
        Some(g) => done_gate_holds(g),
        None => true,
    }
}

// ---------------------------------------------------------------------------
// Rendering
// ---------------------------------------------------------------------------

pub open spec fn bool_text(b: bool) -> Seq<char> {
    if b { "true"@ } else { "false"@ }
}

pub open spec fn criteria_lines(c: Seq<Seq<char>>) -> Seq<char>
    decreases c.len(),
{
    if c.len() == 0 { Seq::empty() } else { criteria_lines(c.drop_last()) + "- "@ + c.last() + "\n"@ }
}

pub open spec fn req_line(r: ReqView) -> Seq<char> {
    "- ["@ + item_status_text(r.status) + "] "@ + r.id + ": "@ + r.text + (if r.evidence.len() > 0 {
        " ("@ + r.evidence + ")"@
    } else {
        Seq::empty()
    }) + "\n"@
}

pub open spec fn req_lines(r: Seq<ReqView>) -> Seq<char>
    decreases r.len(),
{
    if r.len() == 0 { Seq::empty() } else { req_lines(r.drop_last()) + req_line(r.last()) }
}

pub open spec fn done_lines(d: DoneView) -> Seq<char> {
    "done check:\n"@ + "- requirements_met="@ + bool_text(d.requirements_met) + " verified="@ + bool_text(d.verified)
        + " no_errors="@ + bool_text(d.no_errors) + "\n"@ + "- checks: "@ + join(d.checks, "; "@) + "\n"@
        + "- evidence: "@ + join(d.evidence, "; "@) + "\n"@
}

/// The goal as listed by `/goal`.
pub open spec fn render_goal_spec(goal: Option<GoalView>) -> Seq<char> {
    match goal {
        None => "no active goal"@,
        Some(g) => trim_end("goal: "@ + g.title + " ("@ + goal_status_text(g.status) + ")\n"@ + (if g.criteria.len() > 0 {
            "done criteria:\n"@ + criteria_lines(g.criteria)
        } else {
            Seq::empty()
        }) + "requirements:\n"@ + req_lines(g.reqs) + match g.done {
            Some(d) => done_lines(d),
            None => Seq::empty(),
        }),
    }
}

pub open spec fn list_part(label: Seq<char>, items: Seq<Seq<char>>) -> Seq<char> {
    if items.len() > 0 { label + join(items, ", "@) } else { Seq::empty() }
}

pub open spec fn text_part(label: Seq<char>, text: Seq<char>) -> Seq<char> {
    if text.len() > 0 { label + text } else { Seq::empty() }
}

pub open spec fn step_line(s: StepView) -> Seq<char> {
    "- ["@ + item_status_text(s.status) + "] "@ + s.id + ": "@ + s.action + list_part(" | tools: "@, s.tools)
        + list_part(" | files: "@, s.files) + text_part(" | notes: "@, s.notes) + "\n"@
}

pub open spec fn step_lines(s: Seq<StepView>) -> Seq<char>
    decreases s.len(),
{
    if s.len() == 0 { Seq::empty() } else { step_lines(s.drop_last()) + step_line(s.last()) }
}

/// The plan as listed by `/plan`.
pub open spec fn render_plan_spec(plan: Option<PlanView>) -> Seq<char> {
    match plan {
        None => "no active plan"@,
        Some(p) => trim_end("plan: "@ + p.summary + "\n"@ + step_lines(p.steps)),
    }
}

fn string_views_of(v: &Vec<String>) -> (out: Vec<Vec<char>>)
    ensures
        views(out@) == strings_view(v@),
{
    let mut out: Vec<Vec<char>> = Vec::new();
    let mut i: usize = 0;
    while i < v.len()
        invariant
            i <= v@.len(),
            views(out@) == strings_view(v@).take(i as int),
        decreases v@.len() - i,
    {
        let ghost before = views(out@);
        let c = chars_of(v[i].as_str());
        out.push(c);
        assert(views(out@) =~= before.push(c@));
        assert(views(out@) =~= strings_view(v@).take(i + 1));
        i += 1;
    }
    assert(strings_view(v@).take(i as int) =~= strings_view(v@));
    out
}

fn joined(v: &Vec<String>, sep: &str) -> (out: Vec<char>)
    ensures
        out@ == join(strings_view(v@), sep@),
{
    let parts = string_views_of(v);
    join_parts(&parts, sep)
}

fn bool_chars(b: bool) -> (s: &'static str)
    ensures
        s@ == bool_text(b),
{
    if b { "true" } else { "false" }
}

fn push_req_line(v: &mut Vec<char>, r: &Requirement)
    ensures
        final(v)@ == old(v)@ + req_line(req_view(*r)),
{
    let ghost before = v@;
    extend_str(v, "- [");
    extend_str(v, item_status_name(r.status));
    extend_str(v, "] ");
    extend_str(v, r.id.as_str());
    extend_str(v, ": ");
    extend_str(v, r.text.as_str());
    let ghost mid = v@;
    if r.evidence.as_str().unicode_len() > 0 {
        extend_str(v, " (");
        extend_str(v, r.evidence.as_str());
        extend_str(v, ")");
    } else {
        assert(v@ =~= mid + Seq::<char>::empty());
    }
    extend_str(v, "\n");
    assert(v@ =~= before + req_line(req_view(*r)));
}

fn push_list_part(v: &mut Vec<char>, label: &str, items: &Vec<String>)
    ensures
        final(v)@ == old(v)@ + list_part(label@, strings_view(items@)),
{
    let ghost before = v@;
    if items.len() > 0 {
        extend_str(v, label);
        let j = joined(items, ", ");
        extend_chars(v, j.as_slice());
        assert(v@ =~= before + (label@ + j@));
    } else {
        assert(v@ =~= before + Seq::<char>::empty());
    }
}

fn push_text_part(v: &mut Vec<char>, label: &str, text: &String)
    ensures
        final(v)@ == old(v)@ + text_part(label@, text@),
{
    let ghost before = v@;
    if text.as_str().unicode_len() > 0 {
        extend_str(v, label);
        extend_str(v, text.as_str());
        assert(v@ =~= before + (label@ + text@));
    } else {
        assert(v@ =~= before + Seq::<char>::empty());
    }
}

fn push_step_line(v: &mut Vec<char>, s: &PlanStep)
    ensures
        final(v)@ == old(v)@ + step_line(step_view(*s)),
{
    let ghost before = v@;
    extend_str(v, "- [");
    extend_str(v, item_status_name(s.status));
    extend_str(v, "] ");
    extend_str(v, s.id.as_str());
    extend_str(v, ": ");
    extend_str(v, s.action.as_str());
    let ghost head = v@;
    push_list_part(v, " | tools: ", &s.tools);
    push_list_part(v, " | files: ", &s.files);
    push_text_part(v, " | notes: ", &s.notes);
    extend_str(v, "\n");
    assert(v@ =~= before + step_line(step_view(*s)));
}

fn trimmed_end(v: &Vec<char>) -> (s: String)
    ensures
        s@ == trim_end(v@),
{
    let k = trim_end_index(v.as_slice());
    let t = crate::text::slice_chars(v.as_slice(), 0, k);
    string_of(t.as_slice())
}

fn push_criteria(v: &mut Vec<char>, c: &Vec<String>)
    ensures
        final(v)@ == old(v)@ + (if c@.len() > 0 { "done criteria:\n"@ + criteria_lines(strings_view(c@)) } else { Seq::empty() }),
{
    let ghost m0 = v@;
    if c.len() > 0 {
        extend_str(v, "done criteria:\n");
        let ghost h = v@;
        let mut i: usize = 0;
        while i < c.len()
            invariant
                i <= c@.len(),
                v@ == h + criteria_lines(strings_view(c@).take(i as int)),
            decreases c@.len() - i,
        {
            extend_str(v, "- ");
            extend_str(v, c[i].as_str());
            extend_str(v, "\n");
            assert(strings_view(c@).take(i + 1).drop_last() =~= strings_view(c@).take(i as int));
            i += 1;
        }
        assert(strings_view(c@).take(i as int) =~= strings_view(c@));
        assert(v@ =~= m0 + ("done criteria:\n"@ + criteria_lines(strings_view(c@))));
    } else {
        assert(v@ =~= m0 + Seq::<char>::empty());
    }
}

fn push_reqs(v: &mut Vec<char>, r: &Vec<Requirement>)
    ensures
        final(v)@ == old(v)@ + req_lines(reqs_view(r@)),
{
    let ghost h = v@;
    let mut i: usize = 0;
    while i < r.len()
        invariant
            i <= r@.len(),
            v@ == h + req_lines(reqs_view(r@).take(i as int)),
        decreases r@.len() - i,
    {
        push_req_line(v, &r[i]);
        assert(reqs_view(r@).take(i + 1).drop_last() =~= reqs_view(r@).take(i as int));
        i += 1;
    }
    assert(reqs_view(r@).take(i as int) =~= reqs_view(r@));
}

fn push_done(v: &mut Vec<char>, d: &Option<DoneCheck>)
    ensures
        final(v)@ == old(v)@ + match *d {
            Some(x) => done_lines(done_view(x)),
            None => Seq::empty(),
        },
{
    let ghost m1 = v@;
    match d {
        Some(d) => {
            extend_str(v, "done check:\n");
            extend_str(v, "- requirements_met=");
            extend_str(v, bool_chars(d.requirements_met));
            extend_str(v, " verified=");
            extend_str(v, bool_chars(d.verified));
            extend_str(v, " no_errors=");
            extend_str(v, bool_chars(d.no_errors));
            extend_str(v, "\n");
            extend_str(v, "- checks: ");
            let j = joined(&d.checks, "; ");
            extend_chars(v, j.as_slice());
            extend_str(v, "\n");
            extend_str(v, "- evidence: ");
            let j = joined(&d.evidence, "; ");
            extend_chars(v, j.as_slice());
            extend_str(v, "\n");
            assert(v@ =~= m1 + done_lines(done_view(*d)));
        },
        None => {
            assert(v@ =~= m1 + Seq::<char>::empty());
        },
    }
}

/// List the goal (`no active goal` when there is none).
pub fn goal_text(goal: &Option<Goal>) -> (out: String)
    ensures
        out@ == render_goal_spec(match *goal { Some(g) => Some(goal_view(g)), None => None }),
{
    let g = match goal {
        Some(g) => g,
        None => return String::from_str("no active goal"),
    };
    let mut v = chars_of("goal: ");
    extend_str(&mut v, g.title.as_str());
    extend_str(&mut v, " (");
    extend_str(&mut v, goal_status_name(g.status));
    extend_str(&mut v, ")\n");
    push_criteria(&mut v, &g.done_criteria);
    extend_str(&mut v, "requirements:\n");
    push_reqs(&mut v, &g.requirements);
    push_done(&mut v, &g.done_check);
    assert(v@ =~= "goal: "@ + g.title@ + " ("@ + goal_status_text(g.status) + ")\n"@ + (if g.done_criteria@.len() > 0 {
            "done criteria:\n"@ + criteria_lines(strings_view(g.done_criteria@))
        } else {
            Seq::empty()
        }) + "requirements:\n"@ + req_lines(reqs_view(g.requirements@)) + match goal_view(*g).done {
            Some(d) => done_lines(d),
            None => Seq::empty(),
        });
    trimmed_end(&v)
}

/// List the plan (`no active plan` when there is none).
pub fn plan_text(plan: &Option<Plan>) -> (out: String)
    ensures
        out@ == render_plan_spec(match *plan { Some(p) => Some(plan_view(p)), None => None }),
{
    let p = match plan {
        Some(p) => p,
        None => return String::from_str("no active plan"),
    };
    let mut v = chars_of("plan: ");
    extend_str(&mut v, p.summary.as_str());
    extend_str(&mut v, "\n");
    let ghost h = v@;
    let mut i: usize = 0;
    while i < p.steps.len()
        invariant
            i <= p.steps@.len(),
            v@ == h + step_lines(steps_view(p.steps@).take(i as int)),
        decreases p.steps@.len() - i,
    {
        push_step_line(&mut v, &p.steps[i]);
        assert(steps_view(p.steps@).take(i + 1).drop_last() =~= steps_view(p.steps@).take(i as int));
        i += 1;
    }
    assert(steps_view(p.steps@).take(i as int) =~= steps_view(p.steps@));
    trimmed_end(&v)
}

} // verus!

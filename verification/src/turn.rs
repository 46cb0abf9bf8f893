//! One agent turn as a state machine: the program asks the model, gates and
//! runs tools and reports what happened; each report is an event, and
//! [`turn_step`] says what goes into the conversation and what to do next.
//! Planning rounds are capped, a stop request ends the tool work and goes to
//! the answer, and malformed tool calls are handed back to the model.

use vstd::prelude::*;
use crate::agent::join_sections;
use crate::text::{chars_of, extend_str, join, string_of};
use crate::tools::{calls_view, call_view, parse_calls, parse_calls_spec, CallView, ToolCall};

verus! {

broadcast use vstd::string::group_string_axioms;

/// Planning rounds one turn may take.
pub const MAX_TOOL_ROUNDS: u64 = 25;

/// What is appended to the system context when tool planning is over.
pub const ANSWER_NOTE: &'static str = "\n\nTool planning for this turn is complete. Answer normally now. Do not emit tool_call tags.";

/// Where a turn stands: how many planning rounds have been asked for, the
/// calls of this round not yet run (the first is running), and the parse
/// errors of this round, reported once its calls are done.
pub struct TurnState {
    pub round: u64,
    pub pending: Vec<ToolCall>,
    pub errors: Vec<String>,
}

/// What the program reports.
pub enum TurnEvent {
    /// The user's message starts the turn.
    Begin(String),
    /// The model's planning reply.
    Planned(String),
    /// The permission guard refused the running call, for this reason.
    Refused(String),
    /// A pre-tool hook vetoed the running call, with these messages.
    Blocked(Vec<String>),
    /// The running call finished: its result, or its error.
    Ran(Result<String, String>),
    /// The model's final answer.
    Answered(String),
}

/// What the program does next.
pub enum TurnAction {
    /// Ask the model for a planning reply (system context without the
    /// answer note).
    AskPlan,
    /// Gate and run this call.
    Run(ToolCall),
    /// Ask the model for the final answer (system context with the answer
    /// note).
    AskAnswer,
    /// The turn is over.
    Done,
}

/// A step's outcome: the next state, the messages to append to the
/// conversation (role, text), and the next action.
pub struct TurnStep {
    pub state: TurnState,
    pub messages: Vec<(&'static str, String)>,
    pub action: TurnAction,
}

pub struct TurnStateView {
    pub round: u64,
    pub pending: Seq<CallView>,
    pub errors: Seq<Seq<char>>,
}

pub enum ActionView {
    AskPlan,
    Run(CallView),
    AskAnswer,
    Done,
}

pub struct StepView {
    pub state: TurnStateView,
    pub messages: Seq<(Seq<char>, Seq<char>)>,
    pub action: ActionView,
}

pub open spec fn strings_of(v: Seq<String>) -> Seq<Seq<char>> {
    v.map_values(|s: String| s@)
}

pub open spec fn state_view(s: TurnState) -> TurnStateView {
    TurnStateView { round: s.round, pending: calls_view(s.pending@), errors: strings_of(s.errors@) }
}

pub open spec fn action_view(a: TurnAction) -> ActionView {
    match a {
        TurnAction::AskPlan => ActionView::AskPlan,
        TurnAction::Run(c) => ActionView::Run(call_view(c)),
        TurnAction::AskAnswer => ActionView::AskAnswer,
        TurnAction::Done => ActionView::Done,
    }
}

pub open spec fn messages_view(m: Seq<(&'static str, String)>) -> Seq<(Seq<char>, Seq<char>)> {
    m.map_values(|p: (&'static str, String)| (p.0@, p.1@))
}

pub open spec fn step_view(s: TurnStep) -> StepView {
    StepView { state: state_view(s.state), messages: messages_view(s.messages@), action: action_view(s.action) }
}

/// A tool result as the model sees it.
pub open spec fn tool_result_text(body: Seq<char>) -> Seq<char> {
    "<tool_result>\n"@ + body + "\n</tool_result>"@
}

/// The message that hands a malformed tool call back to the model.
pub open spec fn parse_error_text(e: Seq<char>) -> Seq<char> {
    tool_result_text("tool call parse error: "@ + e + "\nfix the JSON and re-emit the tool call"@)
}

pub open spec fn error_messages(errors: Seq<Seq<char>>) -> Seq<(Seq<char>, Seq<char>)>
    decreases errors.len(),
{
    if errors.len() == 0 {
        Seq::empty()
    } else {
        error_messages(errors.drop_last()).push(("user"@, parse_error_text(errors.last())))
    }
}

/// After a call is dealt with (or a round planned): run the next pending
/// call unless a stop was requested; otherwise the round is over, its parse
/// errors go back to the model, and the turn asks for another round, or for
/// the answer once stopped or out of rounds.
pub open spec fn advance_spec(round: u64, pending: Seq<CallView>, errors: Seq<Seq<char>>, stop: bool) -> StepView {
    if pending.len() > 0 && !stop {
        StepView {
            state: TurnStateView { round, pending, errors },
            messages: Seq::empty(),
            action: ActionView::Run(pending[0]),
        }
    } else if stop || round >= MAX_TOOL_ROUNDS {
        StepView {
            state: TurnStateView { round, pending: Seq::empty(), errors: Seq::empty() },
            messages: error_messages(errors),
            action: ActionView::AskAnswer,
        }
    } else {
        StepView {
            state: TurnStateView { round: (round + 1) as u64, pending: Seq::empty(), errors: Seq::empty() },
            messages: error_messages(errors),
            action: ActionView::AskPlan,
        }
    }
}

/// The calls after the running one.
pub open spec fn rest(p: Seq<CallView>) -> Seq<CallView> {
    if p.len() > 0 { p.drop_first() } else { Seq::empty() }
}

/// `s` with `m` put before its messages.
pub open spec fn after_message(m: (Seq<char>, Seq<char>), s: StepView) -> StepView {
    StepView { state: s.state, messages: seq![m] + s.messages, action: s.action }
}

/// What the turn does on `event` in state `s`, with `stop` telling whether
/// the user asked to stop.
pub open spec fn turn_step_spec(s: TurnStateView, event: TurnEvent, stop: bool) -> StepView {
    match event {
        TurnEvent::Begin(p) => after_message(("user"@, p@), advance_spec(0, Seq::empty(), Seq::empty(), stop)),
        TurnEvent::Planned(t) => {
            let (calls, errors) = parse_calls_spec(t@);
            if calls.len() == 0 && errors.len() == 0 {
                StepView {
                    state: TurnStateView { round: s.round, pending: Seq::empty(), errors: Seq::empty() },
                    messages: Seq::empty(),
                    action: ActionView::AskAnswer,
                }
            } else {
                after_message(("assistant"@, t@), advance_spec(s.round, calls, errors, stop))
            }
        },
        TurnEvent::Refused(r) => after_message(
            ("user"@, tool_result_text("permission: "@ + r@)),
            advance_spec(s.round, rest(s.pending), s.errors, stop),
        ),
        TurnEvent::Blocked(ms) => after_message(
            ("user"@, tool_result_text(join(strings_of(ms@), "; "@))),
            advance_spec(s.round, rest(s.pending), s.errors, stop),
        ),
        TurnEvent::Ran(Ok(t)) => after_message(
            ("user"@, tool_result_text(t@)),
            advance_spec(s.round, rest(s.pending), s.errors, stop),
        ),
        TurnEvent::Ran(Err(e)) => after_message(
            ("user"@, tool_result_text("tool error: "@ + e@)),
            advance_spec(s.round, rest(s.pending), s.errors, stop),
        ),
        TurnEvent::Answered(t) => StepView {
            state: TurnStateView { round: s.round, pending: Seq::empty(), errors: Seq::empty() },
            messages: seq![("assistant"@, t@)],
            action: ActionView::Done,
        },
    }
}

/// A turn that has not begun.
pub fn turn_start() -> (s: TurnState)
    ensures
        state_view(s) == (TurnStateView { round: 0, pending: Seq::empty(), errors: Seq::empty() }),
{
    let s = TurnState { round: 0, pending: Vec::new(), errors: Vec::new() };
    assert(calls_view(s.pending@) =~= Seq::<CallView>::empty());
    assert(strings_of(s.errors@) =~= Seq::<Seq<char>>::empty());
    s
}

fn tool_result(body: &str) -> (out: String)
    ensures
        out@ == tool_result_text(body@),
{
    let mut v = chars_of("<tool_result>\n");
    extend_str(&mut v, body);
    extend_str(&mut v, "\n</tool_result>");
    string_of(v.as_slice())
}

fn prefixed(prefix: &str, body: &str) -> (out: String)
    ensures
        out@ == prefix@ + body@,
{
    let mut v = chars_of(prefix);
    extend_str(&mut v, body);
    string_of(v.as_slice())
}

fn copy_rest(v: &[ToolCall]) -> (out: Vec<ToolCall>)
    ensures
        calls_view(out@) == rest(calls_view(v@)),
{
    let mut out: Vec<ToolCall> = Vec::new();
    if v.len() == 0 {
        assert(calls_view(out@) =~= Seq::<CallView>::empty());
        return out;
    }
    let mut i: usize = 1;
    assert(calls_view(out@) =~= calls_view(v@).subrange(1, 1));
    while i < v.len()
        invariant
            1 <= i <= v@.len(),
            calls_view(out@) == calls_view(v@).subrange(1, i as int),
        decreases v@.len() - i,
    {
        let ghost before = calls_view(out@);
        let c = v[i].copy();
        out.push(c);
        assert(calls_view(out@) =~= before.push(call_view(c)));
        assert(calls_view(out@) =~= calls_view(v@).subrange(1, i + 1));
        i += 1;
    }
    assert(calls_view(v@).subrange(1, i as int) =~= calls_view(v@).drop_first());
    out
}

fn copy_strings(v: &[String]) -> (out: Vec<String>)
    ensures
        strings_of(out@) == strings_of(v@),
{
    let mut out: Vec<String> = Vec::new();
    let mut i: usize = 0;
    while i < v.len()
        invariant
            i <= v@.len(),
            strings_of(out@) == strings_of(v@).take(i as int),
        decreases v@.len() - i,
    {
        let ghost before = strings_of(out@);
        let c = v[i].clone();
        out.push(c);
        assert(strings_of(out@) =~= before.push(c@));
        assert(strings_of(out@) =~= strings_of(v@).take(i + 1));
        i += 1;
    }
    assert(strings_of(v@).take(i as int) =~= strings_of(v@));
    out
}

fn error_message_vec(errors: &[String]) -> (out: Vec<(&'static str, String)>)
    ensures
        messages_view(out@) == error_messages(strings_of(errors@)),
{
    let mut out: Vec<(&'static str, String)> = Vec::new();
    let mut i: usize = 0;
    while i < errors.len()
        invariant
            i <= errors@.len(),
            messages_view(out@) == error_messages(strings_of(errors@).take(i as int)),
        decreases errors@.len() - i,
    {
        let body = prefixed("tool call parse error: ", errors[i].as_str());
        let body2 = prefixed(body.as_str(), "\nfix the JSON and re-emit the tool call");
        let text = tool_result(body2.as_str());
        let ghost before = messages_view(out@);
        out.push(("user", text));
        proof {
            let t = strings_of(errors@).take(i + 1);
            assert(t.drop_last() =~= strings_of(errors@).take(i as int));
            assert(t.last() == errors@[i as int]@);
            assert(body2@ == "tool call parse error: "@ + errors@[i as int]@ + "\nfix the JSON and re-emit the tool call"@);
            assert(messages_view(out@) =~= before.push(("user"@, text@)));
        }
        i += 1;
    }
    assert(strings_of(errors@).take(i as int) =~= strings_of(errors@));
    out
}

fn join_strings(v: &Vec<String>, sep: &str) -> (out: String)
    ensures
        out@ == join(strings_of(v@), sep@),
{
    let mut parts: Vec<Vec<char>> = Vec::new();
    let mut i: usize = 0;
    while i < v.len()
        invariant
            i <= v@.len(),
            crate::text::views(parts@) == strings_of(v@).take(i as int),
        decreases v@.len() - i,
    {
        let ghost before = parts@;
        let c = chars_of(v[i].as_str());
        parts.push(c);
        assert(crate::text::views(parts@) =~= crate::text::views(before).push(c@));
        assert(crate::text::views(parts@) =~= strings_of(v@).take(i + 1));
        i += 1;
    }
    assert(strings_of(v@).take(i as int) =~= strings_of(v@));
    let j = crate::text::join_parts(&parts, sep);
    string_of(j.as_slice())
}

fn advance(round: u64, pending: Vec<ToolCall>, errors: Vec<String>, stop: bool) -> (r: TurnStep)
    ensures
        step_view(r) == advance_spec(round, calls_view(pending@), strings_of(errors@), stop),
{
    if pending.len() > 0 && !stop {
        let first = pending[0].copy();
        let ghost pv = calls_view(pending@);
        let ghost ev = strings_of(errors@);
        let r = TurnStep { state: TurnState { round, pending, errors }, messages: Vec::new(), action: TurnAction::Run(first) };
        assert(messages_view(r.messages@) =~= Seq::<(Seq<char>, Seq<char>)>::empty());
        assert(pv[0] == call_view(first));
        r
    } else {
        let messages = error_message_vec(errors.as_slice());
        let next = if stop || round >= MAX_TOOL_ROUNDS { round } else { round + 1 };
        let action = if stop || round >= MAX_TOOL_ROUNDS { TurnAction::AskAnswer } else { TurnAction::AskPlan };
        let s = turn_start();
        let r = TurnStep { state: TurnState { round: next, pending: s.pending, errors: s.errors }, messages, action };
        r
    }
}

fn with_message(role: &'static str, text: String, mut s: TurnStep) -> (r: TurnStep)
    ensures
        step_view(r) == after_message((role@, text@), step_view(s)),
{
    let mut messages: Vec<(&'static str, String)> = Vec::new();
    messages.push((role, text));
    let mut rest: Vec<(&'static str, String)> = Vec::new();
    std::mem::swap(&mut rest, &mut s.messages);
    let ghost first = messages@;
    let ghost tail = rest@;
    messages.append(&mut rest);
    assert(messages@ == first + tail);
    assert(messages_view(messages@) =~= seq![(role@, text@)] + messages_view(tail));
    TurnStep { state: s.state, messages, action: s.action }
}

/// Take one step of a turn.
pub fn turn_step(state: &TurnState, event: TurnEvent, stop: bool) -> (r: TurnStep)
    ensures
        step_view(r) == turn_step_spec(state_view(*state), event, stop),
{
    match event {
        TurnEvent::Begin(p) => {
            let s = advance(0, Vec::new(), Vec::new(), stop);
            proof {
                assert(calls_view(Seq::<ToolCall>::empty()) =~= Seq::<CallView>::empty());
                assert(strings_of(Seq::<String>::empty()) =~= Seq::<Seq<char>>::empty());
            }
            with_message("user", p, s)
        },
        TurnEvent::Planned(t) => {
            let parsed = parse_calls(t.as_str());
            if parsed.calls.len() == 0 && parsed.errors.len() == 0 {
                let s = turn_start();
                let r = TurnStep { state: TurnState { round: state.round, pending: s.pending, errors: s.errors }, messages: Vec::new(), action: TurnAction::AskAnswer };
                assert(messages_view(r.messages@) =~= Seq::<(Seq<char>, Seq<char>)>::empty());
                r
            } else {
                let ghost es = parsed.errors@;
                assert(strings_of(es) =~= es.map_values(|e: String| e@));
                let s = advance(state.round, parsed.calls, parsed.errors, stop);
                with_message("assistant", t, s)
            }
        },
        TurnEvent::Refused(reason) => {
            let body = prefixed("permission: ", reason.as_str());
            let m = tool_result(body.as_str());
            let s = advance(state.round, copy_rest(state.pending.as_slice()), copy_strings(state.errors.as_slice()), stop);
            with_message("user", m, s)
        },
        TurnEvent::Blocked(ms) => {
            let j = join_strings(&ms, "; ");
            let m = tool_result(j.as_str());
            let s = advance(state.round, copy_rest(state.pending.as_slice()), copy_strings(state.errors.as_slice()), stop);
            with_message("user", m, s)
        },
        TurnEvent::Ran(res) => {
            let m = match res {
                Ok(t) => tool_result(t.as_str()),
                Err(e) => {
                    let body = prefixed("tool error: ", e.as_str());
                    tool_result(body.as_str())
                },
            };
            let s = advance(state.round, copy_rest(state.pending.as_slice()), copy_strings(state.errors.as_slice()), stop);
            with_message("user", m, s)
        },
        TurnEvent::Answered(t) => {
            let s = turn_start();
            let mut messages: Vec<(&'static str, String)> = Vec::new();
            messages.push(("assistant", t));
            let r = TurnStep { state: TurnState { round: state.round, pending: s.pending, errors: s.errors }, messages, action: TurnAction::Done };
            assert(messages_view(r.messages@) =~= seq![("assistant"@, t@)]);
            r
        },
    }
}

/// The system context of a turn: the memory context, the tool instructions,
/// the selected skills and the extra context, as non-blank sections joined
/// by blank lines; when tool planning is over, the answer note follows.
pub fn turn_context(memory: &str, tools: &str, skills: &str, extra: &str, answering: bool) -> (out: String)
    ensures
        out@ == join(crate::agent::nonblank(seq![memory@, tools@, skills@, extra@]), "\n\n"@)
            + (if answering { ANSWER_NOTE@ } else { Seq::empty() }),
{
    let parts = [memory, tools, skills, extra];
    assert(parts@.map_values(|s: &str| s@) =~= seq![memory@, tools@, skills@, extra@]);
    let j = join_sections(&parts);
    if answering {
        let mut v = chars_of(j.as_str());
        extend_str(&mut v, ANSWER_NOTE);
        string_of(v.as_slice())
    } else {
        assert(j@ + Seq::<char>::empty() =~= j@);
        j
    }
}

} // verus!

//! The pieces of an agent turn that are decided rather than done: what a
//! turn records, how a plan is written back into history as text, and how
//! system-prompt sections and sub-agent labels are put together.
use vstd::prelude::*;
use crate::json::{members_of, json_compact, json_text, Json, JsonTree};
use crate::llm::UsageSnapshot;
use crate::text::{
    chars_of, extend_chars, extend_str, is_alphanumeric, join, join_parts, string_of, trim, trim_str,
    unicode_alphanumeric, views,
};
use crate::tools::{call_view, calls_view, CallView, ToolCall};

verus! {

broadcast use vstd::string::group_string_axioms;

/// What one turn did: the tools it called, in order, and their results, the
/// final answer, the number of planning rounds, the tokens used, the errors
/// and how long it took.
pub struct TurnCapture {
    pub ordered_tool_calls: Vec<String>,
    pub tool_results: Vec<String>,
    pub final_message: String,
    pub loop_count: usize,
    pub token_usage: UsageSnapshot,
    pub errors: Vec<String>,
    pub runtime_ms: u128,
}

impl Default for TurnCapture {
    fn default() -> (t: TurnCapture)
        ensures
            t.ordered_tool_calls@.len() == 0,
            t.tool_results@.len() == 0,
            t.final_message@.len() == 0,
            t.loop_count == 0,
            t.token_usage == (UsageSnapshot { input: 0, output: 0, total: 0, estimated: false }),
            t.errors@.len() == 0,
            t.runtime_ms == 0,
    {
        TurnCapture {
            ordered_tool_calls: Vec::new(),
            tool_results: Vec::new(),
            final_message: String::new(),
            loop_count: 0,
            token_usage: UsageSnapshot { input: 0, output: 0, total: 0, estimated: false },
            errors: Vec::new(),
            runtime_ms: 0,
        }
    }
}

/// The object a call is written as: `{"tool": …, "args": …}`.
pub open spec fn call_object(c: CallView) -> JsonTree {
    JsonTree::Object(seq![("tool"@, JsonTree::Str(c.tool)), ("args"@, c.args)])
}

/// A plan as history text: the assistant's text, trimmed, then one
/// `<tool_call>` block per call, each on a line of its own.
pub open spec fn plan_text_spec(text: Seq<char>, calls: Seq<CallView>) -> Seq<char>
    decreases calls.len(),
{
    if calls.len() == 0 {
        trim(text)
    } else {
        let prev = plan_text_spec(text, calls.drop_last());
        prev + (if prev.len() > 0 { "\n"@ } else { Seq::empty() }) + "<tool_call>"@ + json_compact(call_object(calls.last()))
            + "</tool_call>"@
    }
}

/// Write a plan (text and structured calls) back as history text that the
/// text protocol can read again.
pub fn synthesize_plan_text(text: &str, calls: &[ToolCall]) -> (out: String)
    ensures
        out@ == plan_text_spec(text@, calls_view(calls@)),
{
    let mut out = trim_str(text);
    let ghost cs = calls_view(calls@);
    let mut i: usize = 0;
    assert(cs.take(0) =~= Seq::<CallView>::empty());
    while i < calls.len()
        invariant
            i <= calls@.len(),
            cs == calls_view(calls@),
            out@ == plan_text_spec(text@, cs.take(i as int)),
        decreases calls@.len() - i,
    {
        assert(cs.take(i + 1).drop_last() =~= cs.take(i as int));
        let members = vec![
            (String::from_str("tool"), Json::Str(calls[i].tool.clone())),
            (String::from_str("args"), calls[i].args.copy()),
        ];
        proof {
            crate::json::lemma_members_of(members@);
        }
        assert(members_of(members@) =~= seq![("tool"@, JsonTree::Str(cs[i as int].tool)), ("args"@, cs[i as int].args)]);
        let obj = Json::Object(members);
        assert(obj@ == call_object(cs[i as int]));
        let j = json_text(&obj);
        let ghost prev = out@;
        if out.len() > 0 {
            out.push('\n');
        }
        extend_str(&mut out, "<tool_call>");
        extend_str(&mut out, j.as_str());
        extend_str(&mut out, "</tool_call>");
        proof {
            reveal_strlit("\n");
        }
        assert(cs.take(i + 1).last() == cs[i as int]);
        assert(plan_text_spec(text@, cs.take(i + 1).drop_last()) == prev);
        assert(out@ =~= prev + (if prev.len() > 0 { "\n"@ } else { Seq::<char>::empty() }) + "<tool_call>"@
            + json_compact(call_object(cs[i as int])) + "</tool_call>"@);
        assert(out@ =~= plan_text_spec(text@, cs.take(i + 1)));
        i += 1;
    }
    assert(cs.take(i as int) =~= cs);
    string_of(out.as_slice())
}

/// The trimmed sections that are not blank, in order.
pub open spec fn nonblank(sections: Seq<Seq<char>>) -> Seq<Seq<char>>
    decreases sections.len(),
{
    if sections.len() == 0 {
        Seq::empty()
    } else {
        nonblank(sections.drop_last()) + if trim(sections.last()).len() > 0 {
            seq![trim(sections.last())]
        } else {
            Seq::empty()
        }
    }
}

/// System-prompt sections, trimmed, joined by blank lines; blank sections
/// leave no gap.
pub fn join_sections(sections: &[&str]) -> (out: String)
    ensures
        out@ == join(nonblank(sections@.map_values(|s: &str| s@)), "\n\n"@),
{
    let ghost ss = sections@.map_values(|s: &str| s@);
    let mut parts: Vec<Vec<char>> = Vec::new();
    let mut i: usize = 0;
    assert(ss.take(0) =~= Seq::<Seq<char>>::empty());
    while i < sections.len()
        invariant
            i <= sections@.len(),
            ss == sections@.map_values(|s: &str| s@),
            views(parts@) == nonblank(ss.take(i as int)),
        decreases sections@.len() - i,
    {
        assert(ss.take(i + 1).drop_last() =~= ss.take(i as int));
        let t = trim_str(sections[i]);
        let ghost before = views(parts@);
        if t.len() > 0 {
            parts.push(t);
            assert(views(parts@) =~= before + seq![trim(ss[i as int])]);
        } else {
            assert(views(parts@) =~= before + Seq::<Seq<char>>::empty());
        }
        i += 1;
    }
    assert(ss.take(i as int) =~= ss);
    let j = join_parts(&parts, "\n\n");
    string_of(j.as_slice())
}

/// A label as a sub-agent's folder name: letters and digits kept, anything
/// else a `-`, at most 40 characters.
pub open spec fn sanitize_spec(s: Seq<char>) -> Seq<char> {
    s.take(if s.len() < 40 { s.len() as int } else { 40 }).map_values(|c: char| if unicode_alphanumeric(c) { c } else { '-' })
}

pub fn sanitize_label(s: &str) -> (out: String)
    ensures
        out@ == sanitize_spec(s@),
{
    let c = chars_of(s);
    let mut v: Vec<char> = Vec::new();
    let mut i: usize = 0;
    while i < c.len() && i < 40
        invariant
            i <= c@.len(),
            i <= 40,
            c@ == s@,
            v@ == c@.take(i as int).map_values(|x: char| if unicode_alphanumeric(x) { x } else { '-' }),
        decreases c@.len() - i,
    {
        let x = c[i];
        if is_alphanumeric(x) {
            v.push(x);
        } else {
            v.push('-');
        }
        assert(v@ =~= c@.take(i + 1).map_values(|x: char| if unicode_alphanumeric(x) { x } else { '-' }));
        i += 1;
    }
    string_of(v.as_slice())
}

} // verus!

//! Tool calls: how they are read out of a model's reply, titled in the
//! activity log, and shortened for display.
use vstd::prelude::*;
use crate::patterns::{captures, regex_captures};
use crate::json::{as_array, as_str, get, json_parse, json_pretty, json_pretty_text, parse_json, str_member, Json, JsonTree};
use crate::markdown::{lines, split_lines};
use crate::permissions::{check, check_spec, classify, classify_spec, Decision, PermissionGuard};
use crate::text::{
    chars_of, eq_ignore_ascii_case, eq_ignore_case, extend_chars, extend_str, find_sub, find_sub_exec,
    join, join_parts, squeeze_ws, squeeze_whitespace, string_of, to_lowercase, trim, trim_str,
    truncate_dots, truncate_with_dots, unicode_lowercase, views, chars_eq_str,
};

verus! {

broadcast use vstd::string::group_string_axioms;

/// A tool the model asked for, with its JSON arguments.
pub struct ToolCall {
    pub tool: String,
    pub args: Json,
}

/// A tool call as values.
pub struct CallView {
    pub tool: Seq<char>,
    pub args: JsonTree,
}

pub open spec fn call_view(c: ToolCall) -> CallView {
    CallView { tool: c.tool@, args: c.args@ }
}

pub open spec fn calls_view(cs: Seq<ToolCall>) -> Seq<CallView> {
    cs.map_values(|c: ToolCall| call_view(c))
}

// ---------------------------------------------------------------------------
// Reading calls out of a reply
// ---------------------------------------------------------------------------

/// The `<tool_call>…</tool_call>` blocks.
pub const TOOL_CALL_PATTERN: &'static str = r"(?s)<tool_call>\s*(.*?)\s*</tool_call>";

/// A `<tool_calls>[…]</tool_calls>` array.
pub const TOOL_CALLS_PATTERN: &'static str = r"(?s)<tool_calls>\s*(.*?)\s*</tool_calls>";

/// The tool (from `tool`, else `name`) and arguments (`args`, else null) of
/// a call object.
pub open spec fn call_of_value(v: JsonTree) -> Result<CallView, Seq<char>> {
    let named = if get(v, "tool"@) is Some { get(v, "tool"@) } else { get(v, "name"@) };
    match named {
        Some(t) => match as_str(t) {
            Some(tool) => Ok(CallView {
                tool,
                args: match get(v, "args"@) {
                    Some(a) => a,
                    None => JsonTree::Null,
                },
            }),
            None => Err("tool call missing tool/name"@),
        },
        None => Err("tool call missing tool/name"@),
    }
}

/// A call from JSON text (trimmed); the parser's message when it is not JSON.
pub open spec fn call_of_text(text: Seq<char>) -> Result<CallView, Seq<char>> {
    match json_parse(trim(text)) {
        Err(e) => Err(e),
        Ok(v) => call_of_value(v),
    }
}

/// The calls that parsed, and the errors of those that did not, each in the
/// order they came.
pub open spec fn sorted_out(rs: Seq<Result<CallView, Seq<char>>>) -> (Seq<CallView>, Seq<Seq<char>>)
    decreases rs.len(),
{
    if rs.len() == 0 {
        (Seq::empty(), Seq::empty())
    } else {
        let (cs, es) = sorted_out(rs.drop_last());
        match rs.last() {
            Ok(c) => (cs.push(c), es),
            Err(e) => (cs, es.push(e)),
        }
    }
}

pub open spec fn block_results(text: Seq<char>) -> Seq<Result<CallView, Seq<char>>> {
    match regex_captures(TOOL_CALL_PATTERN@, text) {
        Some(blocks) => blocks.map_values(|b: Seq<char>| call_of_text(b)),
        None => Seq::empty(),
    }
}

pub open spec fn array_results(text: Seq<char>) -> Seq<Result<CallView, Seq<char>>> {
    match regex_captures(TOOL_CALLS_PATTERN@, text) {
        Some(blocks) => if blocks.len() > 0 {
            match json_parse(trim(blocks[0])) {
                Err(e) => seq![Err(e)],
                Ok(v) => match as_array(v) {
                    Some(items) => items.map_values(|x: JsonTree| call_of_value(x)),
                    None => Seq::empty(),
                },
            }
        } else {
            Seq::empty()
        },
        None => Seq::empty(),
    }
}

/// A bare JSON object naming a tool.
pub open spec fn bare_results(text: Seq<char>) -> Seq<Result<CallView, Seq<char>>> {
    let t = trim(text);
    if t.len() > 0 && t[0] == '{' && find_sub(t, "\"tool\""@, 0) >= 0 {
        seq![call_of_text(t)]
    } else {
        Seq::empty()
    }
}

/// What a reply asks for: the `<tool_call>` blocks; failing any, the items
/// of a `<tool_calls>` array; failing that, a reply that is itself one call
/// object. A block that does not parse becomes an error, so the model can be
/// told, and does not stop the others.
pub open spec fn parse_calls_spec(text: Seq<char>) -> (Seq<CallView>, Seq<Seq<char>>) {
    if block_results(text).len() > 0 {
        sorted_out(block_results(text))
    } else if array_results(text).len() > 0 {
        sorted_out(array_results(text))
    } else {
        sorted_out(bare_results(text))
    }
}

/// The calls read from a reply and the errors of the blocks that did not
/// parse.
pub struct ParsedCalls {
    pub calls: Vec<ToolCall>,
    pub errors: Vec<String>,
}

fn call_of_json(v: &Json) -> (r: Result<ToolCall, String>)
    ensures
        match r {
            Ok(c) => call_of_value(v@) == Ok::<CallView, Seq<char>>(call_view(c)),
            Err(e) => call_of_value(v@) == Err::<CallView, Seq<char>>(e@),
        },
{
    let named = match v.get("tool") {
        Some(t) => Some(t),
        None => v.get("name"),
    };
    let tool = match named {
        Some(t) => match t.as_str() {
            Some(s) => s,
            None => return Err(String::from_str("tool call missing tool/name")),
        },
        None => return Err(String::from_str("tool call missing tool/name")),
    };
    let args = match v.get("args") {
        Some(a) => a.copy(),
        None => Json::Null,
    };
    Ok(ToolCall { tool: String::from_str(tool), args })
}

fn call_of_str(text: &str) -> (r: Result<ToolCall, String>)
    ensures
        match r {
            Ok(c) => call_of_text(text@) == Ok::<CallView, Seq<char>>(call_view(c)),
            Err(e) => call_of_text(text@) == Err::<CallView, Seq<char>>(e@),
        },
{
    let t = trim_str(text);
    let s = string_of(t.as_slice());
    match parse_json(s.as_str()) {
        Ok(v) => call_of_json(&v),
        Err(e) => Err(e),
    }
}

fn record(out: &mut ParsedCalls, r: Result<ToolCall, String>)
    ensures
        (calls_view(final(out).calls@), final(out).errors@.map_values(|e: String| e@)) == ({
            let (cs, es) = (calls_view(old(out).calls@), old(out).errors@.map_values(|e: String| e@));
            match r {
                Ok(c) => (cs.push(call_view(c)), es),
                Err(e) => (cs, es.push(e@)),
            }
        }),
{
    let ghost cs = calls_view(out.calls@);
    let ghost es = out.errors@.map_values(|e: String| e@);
    match r {
        Ok(c) => {
            let ghost cv = call_view(c);
            out.calls.push(c);
            assert(calls_view(out.calls@) =~= cs.push(cv));
            assert(out.errors@.map_values(|e: String| e@) =~= es);
        },
        Err(e) => {
            let ghost ev = e@;
            out.errors.push(e);
            assert(calls_view(out.calls@) =~= cs);
            assert(out.errors@.map_values(|e: String| e@) =~= es.push(ev));
        },
    }
}

pub open spec fn parsed_view(p: ParsedCalls) -> (Seq<CallView>, Seq<Seq<char>>) {
    (calls_view(p.calls@), p.errors@.map_values(|e: String| e@))
}

fn empty_parsed() -> (p: ParsedCalls)
    ensures
        parsed_view(p) == sorted_out(Seq::<Result<CallView, Seq<char>>>::empty()),
{
    let p = ParsedCalls { calls: Vec::new(), errors: Vec::new() };
    assert(calls_view(p.calls@) =~= Seq::<CallView>::empty());
    assert(p.errors@.map_values(|e: String| e@) =~= Seq::<Seq<char>>::empty());
    p
}

/// Read the tool calls out of a model reply.
pub fn parse_calls(text: &str) -> (p: ParsedCalls)
    ensures
        parsed_view(p) == parse_calls_spec(text@),
{
    let mut out = empty_parsed();
    match captures(TOOL_CALL_PATTERN, text) {
        Some(blocks) => {
            let ghost bs = blocks@.map_values(|s: String| s@);
            let ghost rs = bs.map_values(|b: Seq<char>| call_of_text(b));
            let mut i: usize = 0;
            while i < blocks.len()
                invariant
                    i <= blocks@.len(),
                    bs == blocks@.map_values(|s: String| s@),
                    rs == bs.map_values(|b: Seq<char>| call_of_text(b)),
                    parsed_view(out) == sorted_out(rs.take(i as int)),
                decreases blocks@.len() - i,
            {
                assert(rs.take(i + 1).drop_last() =~= rs.take(i as int));
                let r = call_of_str(blocks[i].as_str());
                record(&mut out, r);
                i += 1;
            }
            assert(rs.take(i as int) =~= rs);
            if blocks.len() > 0 {
                return out;
            }
        },
        None => {},
    }
    assert(block_results(text@).len() == 0);
    match captures(TOOL_CALLS_PATTERN, text) {
        Some(blocks) => {
            if blocks.len() > 0 {
                let t = trim_str(blocks[0].as_str());
                let s = string_of(t.as_slice());
                match parse_json(s.as_str()) {
                    Err(e) => {
                        record(&mut out, Err(e));
                        assert(seq![Err::<CallView, Seq<char>>(e@)].drop_last() =~= Seq::<Result<CallView, Seq<char>>>::empty());
                        return out;
                    },
                    Ok(v) => match v.as_array() {
                        Some(items) => {
                            let ghost ts = crate::json::trees_of(items@);
                            let ghost rs = ts.map_values(|x: JsonTree| call_of_value(x));
                            let mut i: usize = 0;
                            while i < items.len()
                                invariant
                                    i <= items@.len(),
                                    ts.len() == items@.len(),
                                    forall|k: int| 0 <= k < items@.len() ==> #[trigger] ts[k] == items@[k]@,
                                    rs == ts.map_values(|x: JsonTree| call_of_value(x)),
                                    parsed_view(out) == sorted_out(rs.take(i as int)),
                                decreases items@.len() - i,
                            {
                                assert(rs.take(i + 1).drop_last() =~= rs.take(i as int));
                                let r = call_of_json(&items[i]);
                                record(&mut out, r);
                                i += 1;
                            }
                            assert(rs.take(i as int) =~= rs);
                            if items.len() > 0 {
                                return out;
                            }
                        },
                        None => {},
                    },
                }
            }
        },
        None => {},
    }
    assert(array_results(text@).len() == 0);
    let t = trim_str(text);
    let quote_tool = chars_of("\"tool\"");
    if t.len() > 0 && t[0] == '{' && find_sub_exec(t.as_slice(), quote_tool.as_slice(), 0).is_some() {
        let s = string_of(t.as_slice());
        let r = call_of_str(s.as_str());
        record(&mut out, r);
        assert(bare_results(text@).drop_last() =~= Seq::<Result<CallView, Seq<char>>>::empty());
    }
    out
}

// ---------------------------------------------------------------------------
// Display
// ---------------------------------------------------------------------------

/// Whitespace squeezed to single spaces and cut to `max` characters with
/// `...` appended.
pub open spec fn compact_line(text: Seq<char>, max: nat) -> Seq<char> {
    truncate_dots(squeeze_ws(text), max)
}

fn compact_line_exec(text: &str, max: usize) -> (out: Vec<char>)
    ensures
        out@ == compact_line(text@, max as nat),
{
    let c = chars_of(text);
    let s = squeeze_whitespace(c.as_slice());
    truncate_with_dots(s.as_slice(), max)
}

/// The first twelve lines, cut to 1200 characters.
pub open spec fn brief_spec(text: Seq<char>) -> Seq<char> {
    let ls = lines(text);
    truncate_dots(join(ls.take(if ls.len() < 12 { ls.len() as int } else { 12 }), "\n"@), 1200)
}

/// A short form of a tool result for the activity log.
pub fn brief(text: &str) -> (out: String)
    ensures
        out@ == brief_spec(text@),
{
    let c = chars_of(text);
    let all = split_lines(c.as_slice());
    assert(views(all@) =~= lines(text@));
    let mut first: Vec<Vec<char>> = Vec::new();
    let mut i: usize = 0;
    while i < all.len() && i < 12
        invariant
            i <= all@.len(),
            i <= 12,
            views(all@) == lines(text@),
            views(first@) == lines(text@).take(i as int),
        decreases all@.len() - i,
    {
        let ghost before = views(first@);
        let mut v: Vec<char> = Vec::new();
        extend_chars(&mut v, all[i].as_slice());
        assert(v@ == views(all@)[i as int]);
        first.push(v);
        assert(views(first@) =~= before.push(v@));
        assert(views(first@) =~= lines(text@).take(i + 1));
        i += 1;
    }
    assert(views(all@).len() == all@.len());
    let j = join_parts(&first, "\n");
    let t = truncate_with_dots(j.as_slice(), 1200);
    string_of(t.as_slice())
}

pub open spec fn is_computer_use(l: Seq<char>) -> bool {
    l == "computeruse"@ || l == "computer_use"@ || l == "computer-use"@ || l == "computer use"@
}

/// `prefix` and the string argument `key` on one line, or `fallback`.
pub open spec fn titled(args: JsonTree, key: Seq<char>, prefix: Seq<char>, fallback: Seq<char>) -> Seq<char> {
    match str_member(args, key) {
        Some(v) => prefix + compact_line(v, 96),
        None => fallback,
    }
}

/// The line the activity log shows for a call.
pub open spec fn activity_title_spec(c: CallView) -> Seq<char> {
    let l = unicode_lowercase(c.tool);
    if l == "bash"@ {
        titled(c.args, "command"@, "Bash: "@, "Bash"@)
    } else if l == "read"@ || l == "write"@ || l == "edit"@ {
        titled(c.args, "path"@, c.tool + ": "@, c.tool)
    } else if l == "grep"@ {
        titled(c.args, "pattern"@, "Grep: "@, c.tool)
    } else if l == "glob"@ {
        titled(c.args, "pattern"@, "Glob: "@, c.tool)
    } else if l == "monitor"@ {
        titled(c.args, "command"@, "Monitor: "@, "Monitor"@)
    } else if l == "mcp"@ {
        match str_member(c.args, "action"@) {
            Some(a) => "Mcp: "@ + a,
            None => "Mcp"@,
        }
    } else if is_computer_use(l) {
        let named = if get(c.args, "action"@) is Some { get(c.args, "action"@) } else { get(c.args, "type"@) };
        match named {
            Some(v) => match as_str(v) {
                Some(a) => "ComputerUse: "@ + a,
                None => "ComputerUse"@,
            },
            None => "ComputerUse"@,
        }
    } else if l == "slashcommand"@ {
        titled(c.args, "command"@, "SlashCommand: "@, "SlashCommand"@)
    } else {
        c.tool
    }
}

/// The details the activity log shows for a call: the tool, its arguments
/// as indented JSON and, for `Bash`, the command.
pub open spec fn activity_detail_spec(c: CallView) -> Seq<char> {
    "tool: "@ + c.tool + "\nargs:\n"@ + json_pretty(c.args) + if eq_ignore_ascii_case(c.tool, "bash"@) {
        match str_member(c.args, "command"@) {
            Some(cmd) => "\n\nbash command:\n"@ + cmd,
            None => Seq::empty(),
        }
    } else {
        Seq::empty()
    }
}

impl ToolCall {
    fn titled_exec(&self, key: &str, prefix: &str, fallback: &str) -> (out: String)
        ensures
            out@ == titled(self.args@, key@, prefix@, fallback@),
    {
        match crate::json::get_str(&self.args, key) {
            Some(v) => {
                let mut o = chars_of(prefix);
                let c = compact_line_exec(v, 96);
                extend_chars(&mut o, c.as_slice());
                string_of(o.as_slice())
            },
            None => String::from_str(fallback),
        }
    }

    /// The line the activity log shows for this call.
    pub fn activity_title(&self) -> (out: String)
        ensures
            out@ == activity_title_spec(call_view(*self)),
    {
        let lower = to_lowercase(self.tool.as_str());
        let lc = chars_of(lower.as_str());
        let l = lc.as_slice();
        if chars_eq_str(l, "bash") {
            self.titled_exec("command", "Bash: ", "Bash")
        } else if chars_eq_str(l, "read") || chars_eq_str(l, "write") || chars_eq_str(l, "edit") {
            let mut p = chars_of(self.tool.as_str());
            extend_str(&mut p, ": ");
            let ps = string_of(p.as_slice());
            self.titled_exec("path", ps.as_str(), self.tool.as_str())
        } else if chars_eq_str(l, "grep") {
            self.titled_exec("pattern", "Grep: ", self.tool.as_str())
        } else if chars_eq_str(l, "glob") {
            self.titled_exec("pattern", "Glob: ", self.tool.as_str())
        } else if chars_eq_str(l, "monitor") {
            self.titled_exec("command", "Monitor: ", "Monitor")
        } else if chars_eq_str(l, "mcp") {
            match crate::json::get_str(&self.args, "action") {
                Some(a) => {
                    let mut o = chars_of("Mcp: ");
                    extend_str(&mut o, a);
                    string_of(o.as_slice())
                },
                None => String::from_str("Mcp"),
            }
        } else if chars_eq_str(l, "computeruse") || chars_eq_str(l, "computer_use") || chars_eq_str(l, "computer-use")
            || chars_eq_str(l, "computer use") {
            let named = match self.args.get("action") {
                Some(v) => Some(v),
                None => self.args.get("type"),
            };
            match named {
                Some(v) => match v.as_str() {
                    Some(a) => {
                        let mut o = chars_of("ComputerUse: ");
                        extend_str(&mut o, a);
                        string_of(o.as_slice())
                    },
                    None => String::from_str("ComputerUse"),
                },
                None => String::from_str("ComputerUse"),
            }
        } else if chars_eq_str(l, "slashcommand") {
            self.titled_exec("command", "SlashCommand: ", "SlashCommand")
        } else {
            self.tool.clone()
        }
    }

    /// The details the activity log shows for this call.
    pub fn activity_detail(&self) -> (out: String)
        ensures
            out@ == activity_detail_spec(call_view(*self)),
    {
        let mut v = chars_of("tool: ");
        extend_str(&mut v, self.tool.as_str());
        extend_str(&mut v, "\nargs:\n");
        let a = json_pretty_text(&self.args);
        extend_str(&mut v, a.as_str());
        let ghost head = v@;
        let tc = chars_of(self.tool.as_str());
        if eq_ignore_case(tc.as_slice(), "bash") {
            match crate::json::get_str(&self.args, "command") {
                Some(cmd) => {
                    extend_str(&mut v, "\n\nbash command:\n");
                    extend_str(&mut v, cmd);
                },
                None => {
                    assert(v@ =~= head + Seq::<char>::empty());
                },
            }
        } else {
            assert(v@ =~= head + Seq::<char>::empty());
        }
        string_of(v.as_slice())
    }

    /// Whether this call asks the user a question.
    pub fn needs_user_input(&self) -> (b: bool)
        ensures
            b == eq_ignore_ascii_case(self.tool@, "askuserquestion"@),
    {
        let tc = chars_of(self.tool.as_str());
        eq_ignore_case(tc.as_slice(), "askuserquestion")
    }

    /// Whether gating this call would have to ask the user: the matrix says
    /// ask and the action is not allowed for the current task.
    pub fn needs_permission_input(&self, perms: &PermissionGuard) -> (b: bool)
        ensures
            b == (check_spec(perms.mode, classify_spec(call_view(*self))) == Decision::Ask
                && !perms.task_allowed@.contains(classify_spec(call_view(*self)))),
    {
        let a = classify(self);
        let d = check(perms.mode, a);
        d == Decision::Ask && !perms.task_allows(a)
    }

    /// A copy of this call.
    pub fn copy(&self) -> (c: ToolCall)
        ensures
            call_view(c) == call_view(*self),
    {
        ToolCall { tool: self.tool.clone(), args: self.args.copy() }
    }
}

} // verus!

//! The workspace tools' own rules: which tool a call names, what an edit
//! does to a file's text, how results are reported, how a long-running
//! monitor is asked for, how a user's answer is read, and how web pages and
//! search results are turned into text. Touching the file system, running
//! commands and fetching pages is the platform layer's.
use vstd::prelude::*;
use crate::patterns::is_match;
use crate::json::{bool_member, get, get_str, str_member, Json, JsonTree};
use crate::text::{
    chars_eq_str, chars_of, decimal, decimal_string, extend_chars, extend_str, find_sub,
    find_sub_exec, join, replace_all, slice_chars, string_of, to_lowercase, trim, trim_chars,
    truncate_dots, truncate_with_dots, unicode_lowercase,
};

verus! {

broadcast use vstd::string::group_string_axioms;

// ---------------------------------------------------------------------------
// Which tool
// ---------------------------------------------------------------------------

/// The tools the runtime carries out.
#[derive(Clone, Copy, Debug, PartialEq, Eq, Structural)]
pub enum ToolKind {
    Goal,
    Plan,
    Observe,
    Read,
    Write,
    Edit,
    Bash,
    Monitor,
    Mcp,
    ComputerUse,
    Glob,
    Grep,
    WebSearch,
    WebFetch,
    AskUser,
    Unknown,
}

/// The tool a lowercased name names.
pub open spec fn tool_kind_spec(lower: Seq<char>) -> ToolKind {
    if lower == "goal"@ {
        ToolKind::Goal
    } else if lower == "plan"@ {
        ToolKind::Plan
    } else if lower == "observe"@ || lower == "observation"@ {
        ToolKind::Observe
    } else if lower == "read"@ {
        ToolKind::Read
    } else if lower == "write"@ {
        ToolKind::Write
    } else if lower == "edit"@ {
        ToolKind::Edit
    } else if lower == "bash"@ {
        ToolKind::Bash
    } else if lower == "monitor"@ {
        ToolKind::Monitor
    } else if lower == "mcp"@ {
        ToolKind::Mcp
    } else if lower == "computeruse"@ || lower == "computer_use"@ || lower == "computer-use"@ || lower == "computer use"@ {
        ToolKind::ComputerUse
    } else if lower == "glob"@ {
        ToolKind::Glob
    } else if lower == "grep"@ {
        ToolKind::Grep
    } else if lower == "websearch"@ {
        ToolKind::WebSearch
    } else if lower == "webfetch"@ {
        ToolKind::WebFetch
    } else if lower == "askuserquestion"@ {
        ToolKind::AskUser
    } else {
        ToolKind::Unknown
    }
}

/// The tool `name` names, in any case.
pub fn tool_kind(name: &str) -> (k: ToolKind)
    ensures
        k == tool_kind_spec(unicode_lowercase(name@)),
{
    let l = to_lowercase(name);
    let c = chars_of(l.as_str());
    let x = c.as_slice();
    if chars_eq_str(x, "goal") {
        ToolKind::Goal
    } else if chars_eq_str(x, "plan") {
        ToolKind::Plan
    } else if chars_eq_str(x, "observe") || chars_eq_str(x, "observation") {
        ToolKind::Observe
    } else if chars_eq_str(x, "read") {
        ToolKind::Read
    } else if chars_eq_str(x, "write") {
        ToolKind::Write
    } else if chars_eq_str(x, "edit") {
        ToolKind::Edit
    } else if chars_eq_str(x, "bash") {
        ToolKind::Bash
    } else if chars_eq_str(x, "monitor") {
        ToolKind::Monitor
    } else if chars_eq_str(x, "mcp") {
        ToolKind::Mcp
    } else if chars_eq_str(x, "computeruse") || chars_eq_str(x, "computer_use") || chars_eq_str(x, "computer-use")
        || chars_eq_str(x, "computer use") {
        ToolKind::ComputerUse
    } else if chars_eq_str(x, "glob") {
        ToolKind::Glob
    } else if chars_eq_str(x, "grep") {
        ToolKind::Grep
    } else if chars_eq_str(x, "websearch") {
        ToolKind::WebSearch
    } else if chars_eq_str(x, "webfetch") {
        ToolKind::WebFetch
    } else if chars_eq_str(x, "askuserquestion") {
        ToolKind::AskUser
    } else {
        ToolKind::Unknown
    }
}

/// What an `Observe` call looks at.
#[derive(Clone, Copy, Debug, PartialEq, Eq, Structural)]
pub enum ObserveTarget {
    Workspace,
    Changes,
    File,
    Terminal,
    Monitor,
    Web,
    Screen,
    Unknown,
}

pub open spec fn observe_target_spec(lower: Seq<char>) -> ObserveTarget {
    if lower == "workspace"@ || lower == "files"@ {
        ObserveTarget::Workspace
    } else if lower == "changes"@ || lower == "diff"@ {
        ObserveTarget::Changes
    } else if lower == "file"@ {
        ObserveTarget::File
    } else if lower == "terminal"@ || lower == "shell"@ {
        ObserveTarget::Terminal
    } else if lower == "monitor"@ {
        ObserveTarget::Monitor
    } else if lower == "web"@ || lower == "page"@ || lower == "webpage"@ {
        ObserveTarget::Web
    } else if lower == "screen"@ || lower == "state"@ {
        ObserveTarget::Screen
    } else {
        ObserveTarget::Unknown
    }
}

/// The target an `Observe` call names (`target`, else `kind`, else
/// `screen`), lowercased, and what it is.
pub fn observe_target(args: &Json) -> (r: (ObserveTarget, String))
    ensures
        r.1@ == unicode_lowercase(crate::observations::target_arg_spec(args@)),
        r.0 == observe_target_spec(r.1@),
{
    let t = crate::observations::target_arg(args);
    let l = to_lowercase(t);
    let c = chars_of(l.as_str());
    let x = c.as_slice();
    let k = if chars_eq_str(x, "workspace") || chars_eq_str(x, "files") {
        ObserveTarget::Workspace
    } else if chars_eq_str(x, "changes") || chars_eq_str(x, "diff") {
        ObserveTarget::Changes
    } else if chars_eq_str(x, "file") {
        ObserveTarget::File
    } else if chars_eq_str(x, "terminal") || chars_eq_str(x, "shell") {
        ObserveTarget::Terminal
    } else if chars_eq_str(x, "monitor") {
        ObserveTarget::Monitor
    } else if chars_eq_str(x, "web") || chars_eq_str(x, "page") || chars_eq_str(x, "webpage") {
        ObserveTarget::Web
    } else if chars_eq_str(x, "screen") || chars_eq_str(x, "state") {
        ObserveTarget::Screen
    } else {
        ObserveTarget::Unknown
    };
    (k, l)
}

// ---------------------------------------------------------------------------
// Arguments
// ---------------------------------------------------------------------------

pub open spec fn u64_member_or(args: JsonTree, key: Seq<char>, default: u64) -> u64 {
    match get(args, key) {
        Some(JsonTree::Number(Some(n), _)) => n,
        _ => default,
    }
}

/// The unsigned integer member `key` of `args`, or `default`.
pub fn u64_arg(args: &Json, key: &str, default: u64) -> (r: u64)
    ensures
        r == u64_member_or(args@, key@, default),
{
    match args.get(key) {
        Some(v) => match v.as_u64() {
            Some(n) => n,
            None => default,
        },
        None => default,
    }
}

/// How long a `Bash` call may run: `timeout_secs` (60 by default), at most
/// ten minutes.
pub fn bash_timeout(args: &Json) -> (r: u64)
    ensures
        r == (if u64_member_or(args@, "timeout_secs"@, 60) < 600 { u64_member_or(args@, "timeout_secs"@, 60) } else { 600 }),
{
    let t = u64_arg(args, "timeout_secs", 60);
    if t < 600 { t } else { 600 }
}

// ---------------------------------------------------------------------------
// Editing text
// ---------------------------------------------------------------------------

/// How many times `pat` occurs in `s`, counting from the left without
/// overlaps (`str::matches(..).count()`); an empty pattern matches at each of
/// the `s.len() + 1` character boundaries.
pub open spec fn count_matches(s: Seq<char>, pat: Seq<char>) -> nat
    decreases s.len(),
{
    if pat.len() == 0 {
        s.len() + 1
    } else {
        let i = find_sub(s, pat, 0);
        if i < 0 {
            0
        } else {
            proof {
                crate::text::lemma_find_sub_range(s, pat, 0);
            }
            1 + count_matches(s.skip(i + pat.len()), pat)
        }
    }
}

/// `rep` before each character of `s` and at its end (`str::replace` with an
/// empty pattern).
pub open spec fn interleave(s: Seq<char>, rep: Seq<char>) -> Seq<char>
    decreases s.len(),
{
    if s.len() == 0 {
        rep
    } else {
        rep + seq![s[0]] + interleave(s.drop_first(), rep)
    }
}

/// `s` with its first occurrence of `pat` replaced by `rep`
/// (`str::replacen(pat, rep, 1)`).
pub open spec fn replace_first(s: Seq<char>, pat: Seq<char>, rep: Seq<char>) -> Seq<char> {
    if pat.len() == 0 {
        rep + s
    } else {
        let i = find_sub(s, pat, 0);
        if i < 0 { s } else { s.take(i) + rep + s.skip(i + pat.len()) }
    }
}

/// `s` with every occurrence of `pat` replaced by `rep` (`str::replace`).
pub open spec fn replace_every(s: Seq<char>, pat: Seq<char>, rep: Seq<char>) -> Seq<char> {
    if pat.len() == 0 { interleave(s, rep) } else { replace_all(s, pat, rep) }
}

/// What an `Edit` does to a file's text: the text with `old` replaced by
/// `new` (every occurrence when `replace_all`) and the number of
/// occurrences; refused when `old` does not occur, or occurs more than once
/// and not every occurrence is to be replaced.
pub open spec fn edit_spec(text: Seq<char>, old: Seq<char>, new: Seq<char>, replace_all: bool) -> Result<(Seq<char>, nat), Seq<char>> {
    let n = count_matches(text, old);
    if n == 0 {
        Err("old text not found"@)
    } else if n > 1 && !replace_all {
        Err("old text matched "@ + decimal(n) + " times; pass replace_all=true or make it more precise"@)
    } else if replace_all {
        Ok((replace_every(text, old, new), n))
    } else {
        Ok((replace_first(text, old, new), n))
    }
}

fn count_exec(s: &[char], pat: &[char]) -> (n: usize)
    requires
        s@.len() < usize::MAX,
    ensures
        n == count_matches(s@, pat@),
{
    if pat.len() == 0 {
        return s.len() + 1;
    }
    let mut n: usize = 0;
    let mut from: usize = 0;
    let ghost total = count_matches(s@, pat@);
    assert(s@.skip(0) =~= s@);
    loop
        invariant
            pat@.len() > 0,
            from <= s@.len(),
            s@.len() < usize::MAX,
            n <= from,
            n + count_matches(s@.skip(from as int), pat@) == total,
            total == count_matches(s@, pat@),
        decreases s@.len() - from,
    {
        let rest = slice_chars(s, from, s.len());
        assert(rest@ =~= s@.skip(from as int));
        match find_sub_exec(rest.as_slice(), pat, 0) {
            None => {
                return n;
            },
            Some(i) => {
                proof {
                    crate::text::lemma_find_sub_range(rest@, pat@, 0);
                }
                assert(rest@.skip(i + pat@.len()) =~= s@.skip(from + i + pat@.len()));
                n = n + 1;
                from = from + i + pat.len();
            },
        }
    }
}

fn interleave_exec(s: &[char], rep: &[char]) -> (out: Vec<char>)
    ensures
        out@ == interleave(s@, rep@),
{
    let mut out: Vec<char> = Vec::new();
    let mut i: usize = 0;
    assert(s@.skip(0) =~= s@);
    while i < s.len()
        invariant
            i <= s@.len(),
            out@ + interleave(s@.skip(i as int), rep@) == interleave(s@, rep@),
        decreases s@.len() - i,
    {
        let ghost rest = s@.skip(i as int);
        assert(rest[0] == s@[i as int]);
        assert(rest.drop_first() =~= s@.skip(i + 1));
        extend_chars(&mut out, rep);
        out.push(s[i]);
        assert(out@ + interleave(s@.skip(i + 1), rep@) =~= interleave(s@, rep@));
        i += 1;
    }
    extend_chars(&mut out, rep);
    assert(s@.skip(i as int) =~= Seq::<char>::empty());
    out
}

/// Apply an `Edit` to a file's text.
pub fn edit_text(text: &str, old: &str, new: &str, replace_all: bool) -> (r: Result<(String, usize), String>)
    requires
        text@.len() < usize::MAX,
    ensures
        match r {
            Ok((t, n)) => edit_spec(text@, old@, new@, replace_all) == Ok::<(Seq<char>, nat), Seq<char>>((t@, n as nat)),
            Err(e) => edit_spec(text@, old@, new@, replace_all) == Err::<(Seq<char>, nat), Seq<char>>(e@),
        },
{
    let t = chars_of(text);
    let o = chars_of(old);
    let w = chars_of(new);
    let n = count_exec(t.as_slice(), o.as_slice());
    if n == 0 {
        return Err(String::from_str("old text not found"));
    }
    if n > 1 && !replace_all {
        let mut m = chars_of("old text matched ");
        let d = decimal_string(n as u64);
        extend_chars(&mut m, d.as_slice());
        extend_str(&mut m, " times; pass replace_all=true or make it more precise");
        return Err(string_of(m.as_slice()));
    }
    let out = if o.len() == 0 {
        if replace_all {
            interleave_exec(t.as_slice(), w.as_slice())
        } else {
            let mut v = w.clone();
            extend_chars(&mut v, t.as_slice());
            v
        }
    } else if replace_all {
        crate::text::replace_chars(t.as_slice(), old, new)
    } else {
        match find_sub_exec(t.as_slice(), o.as_slice(), 0) {
            Some(i) => {
                proof {
                    crate::text::lemma_find_sub_range(t@, o@, 0);
                }
                let mut v = slice_chars(t.as_slice(), 0, i);
                extend_chars(&mut v, w.as_slice());
                let tail = slice_chars(t.as_slice(), i + o.len(), t.len());
                extend_chars(&mut v, tail.as_slice());
                v
            },
            None => slice_chars(t.as_slice(), 0, t.len()),
        }
    };
    Ok((string_of(out.as_slice()), n))
}

/// The opening of the tool instructions, up to the workspace's path.
pub const TOOLS_HEAD: &'static str = "<tool_instructions>\nYou have workspace tools for: ";

/// The tool catalogue that follows the workspace's path.
pub const TOOLS_BODY: &'static str = "\nWhen a tool is needed, return only one or more blocks shaped exactly:
<tool_call>{\"tool\":\"Read\",\"args\":{\"path\":\"src/main.rs\"}}</tool_call>
After tool results are provided, continue reasoning from the result.
Available tools:
- Read: {\"path\":\"relative/file\",\"max_bytes\":20000}
- Write: {\"path\":\"relative/file\",\"content\":\"...\",\"overwrite\":false}
- Edit: {\"path\":\"relative/file\",\"old\":\"exact text\",\"new\":\"replacement\",\"replace_all\":false}
- Bash: {\"command\":\"cargo test\",\"timeout_secs\":60}
- Monitor: {\"action\":\"start\",\"command\":\"npm run dev\"} or {\"action\":\"read\",\"id\":1} or {\"action\":\"stop\",\"id\":1}
- Glob: {\"pattern\":\"**/*.rs\"}
- Grep: {\"pattern\":\"regex\",\"path\":\".\",\"glob\":\"**/*.rs\",\"max_matches\":100}
- WebSearch: {\"query\":\"search terms\",\"limit\":5}
- WebFetch: {\"url\":\"https://example.com\",\"max_chars\":12000}
- AskUserQuestion: {\"question\":\"...\",\"choices\":[\"A\",\"B\"]}
- ComputerUse: inspect and control the local GUI using screenshots and screen pixel coordinates, e.g. {\"action\":\"open\",\"target\":\"http://localhost:3000\",\"wait_ms\":1500}, {\"action\":\"screenshot\"}, {\"action\":\"click\",\"x\":640,\"y\":420,\"button\":\"left\"}, {\"action\":\"move\",\"x\":640,\"y\":420}, {\"action\":\"type\",\"text\":\"hello\"}, {\"action\":\"key\",\"key\":\"cmd+l\"}. Use it to open apps/websites, screenshot to verify, then click/type through the UI.
- SlashCommand: run any local slash command the user can type, e.g. {\"command\":\"/help\"}, {\"command\":\"/computer-use screenshot\"}, {\"command\":\"/mcp list\"}, {\"command\":\"/privacy incognito\"}. Do not use /exit or /quit.
- Mcp: connect and use MCP servers, e.g. {\"action\":\"connect\",\"name\":\"filesystem\",\"command\":\"npx -y @modelcontextprotocol/server-filesystem .\"}, {\"action\":\"tools\",\"server\":\"filesystem\"}, {\"action\":\"call\",\"server\":\"filesystem\",\"name\":\"read_file\",\"arguments\":{\"path\":\"README.md\"}}
- Observe: {\"target\":\"workspace|changes|file|terminal|monitor|web|screen\",\"path\":\"relative/file\",\"id\":1,\"url\":\"https://example.com\"}
- Goal: manage the requirement todo list, e.g. {\"action\":\"set\",\"title\":\"...\",\"requirements\":[\"...\"]}, {\"action\":\"update_requirement\",\"id\":\"R1\",\"status\":\"done\",\"evidence\":\"...\"}, or {\"action\":\"mark_done\",\"requirements_met\":true,\"verified\":true,\"no_errors\":true,\"checks\":[\"cargo test\"],\"evidence\":[\"...\"]}
- Plan: record intended steps, tools, and files, e.g. {\"action\":\"set\",\"summary\":\"...\",\"steps\":[{\"action\":\"Inspect code\",\"tools\":[\"Read\"],\"files\":[\"src/main.rs\"]}]}
Use Read before editing files you have not inspected. Prefer Edit for precise changes and Write for new files.
</tool_instructions>";

/// The system prompt that teaches the model the tools: the catalogue for
/// `workspace`, then the observation, MCP and goal prompts, a blank line
/// between each.
pub fn tool_instructions(workspace: &str, observation: &str, mcp: &str, goal: &str) -> (out: String)
    ensures
        out@ == TOOLS_HEAD@ + workspace@ + TOOLS_BODY@ + "\n\n"@ + observation@ + "\n\n"@ + mcp@ + "\n\n"@ + goal@,
{
    let mut v = chars_of(TOOLS_HEAD);
    extend_str(&mut v, workspace);
    extend_str(&mut v, TOOLS_BODY);
    extend_str(&mut v, "\n\n");
    extend_str(&mut v, observation);
    extend_str(&mut v, "\n\n");
    extend_str(&mut v, mcp);
    extend_str(&mut v, "\n\n");
    extend_str(&mut v, goal);
    string_of(v.as_slice())
}

// ---------------------------------------------------------------------------
// Reports
// ---------------------------------------------------------------------------

/// What a `Read` answers: the path, the size in bytes, and the text cut to
/// `max` characters.
pub fn read_report(rel: &str, bytes: usize, text: &str, max: usize) -> (out: String)
    ensures
        out@ == "Read "@ + rel@ + " ("@ + decimal(bytes as nat) + " bytes)\n"@ + truncate_dots(text@, max as nat),
{
    let mut v = chars_of("Read ");
    extend_str(&mut v, rel);
    extend_str(&mut v, " (");
    let d = decimal_string(bytes as u64);
    extend_chars(&mut v, d.as_slice());
    extend_str(&mut v, " bytes)\n");
    let t = chars_of(text);
    let cut = truncate_with_dots(t.as_slice(), max);
    extend_chars(&mut v, cut.as_slice());
    string_of(v.as_slice())
}

/// Whether a `Write` may go ahead: an existing file is only replaced when
/// `overwrite` is given.
pub fn write_allowed(present: bool, overwrite: bool) -> (r: Result<(), String>)
    ensures
        r is Ok <==> (!present || overwrite),
        r matches Err(e) ==> e@ == "file exists; pass overwrite=true or use Edit"@,
{
    if present && !overwrite {
        Err(String::from_str("file exists; pass overwrite=true or use Edit"))
    } else {
        Ok(())
    }
}

/// What a `Write` answers.
pub fn write_report(rel: &str, bytes: usize) -> (out: String)
    ensures
        out@ == "Wrote "@ + rel@ + " ("@ + decimal(bytes as nat) + " bytes)"@,
{
    let mut v = chars_of("Wrote ");
    extend_str(&mut v, rel);
    extend_str(&mut v, " (");
    let d = decimal_string(bytes as u64);
    extend_chars(&mut v, d.as_slice());
    extend_str(&mut v, " bytes)");
    string_of(v.as_slice())
}

/// What an `Edit` answers.
pub fn edit_report(rel: &str, count: usize) -> (out: String)
    ensures
        out@ == "Edited "@ + rel@ + " ("@ + decimal(count as nat) + " replacement(s))"@,
{
    let mut v = chars_of("Edited ");
    extend_str(&mut v, rel);
    extend_str(&mut v, " (");
    let d = decimal_string(count as u64);
    extend_chars(&mut v, d.as_slice());
    extend_str(&mut v, " replacement(s))");
    string_of(v.as_slice())
}

/// What a `Bash` call answers: the command, its exit status as the platform
/// writes it, whether it was stopped for running too long, and its output
/// and error output, each cut to 16000 characters.
pub fn bash_report(command: &str, status: &str, timed_out: bool, stdout: &str, stderr: &str) -> (out: String)
    ensures
        out@ == "command: "@ + command@ + "\nstatus: "@ + status@ + "\ntimed_out: "@
            + (if timed_out { "true"@ } else { "false"@ }) + "\nstdout:\n"@ + truncate_dots(stdout@, 16000)
            + "\nstderr:\n"@ + truncate_dots(stderr@, 16000),
{
    let mut v = chars_of("command: ");
    extend_str(&mut v, command);
    extend_str(&mut v, "\nstatus: ");
    extend_str(&mut v, status);
    extend_str(&mut v, "\ntimed_out: ");
    extend_str(&mut v, if timed_out { "true" } else { "false" });
    extend_str(&mut v, "\nstdout:\n");
    let o = chars_of(stdout);
    let oc = truncate_with_dots(o.as_slice(), 16000);
    extend_chars(&mut v, oc.as_slice());
    extend_str(&mut v, "\nstderr:\n");
    let e = chars_of(stderr);
    let ec = truncate_with_dots(e.as_slice(), 16000);
    extend_chars(&mut v, ec.as_slice());
    string_of(v.as_slice())
}

/// One match of a `Grep`: path, line number and the trimmed line.
pub fn grep_hit(rel: &str, line_number: usize, line: &str) -> (out: String)
    ensures
        out@ == rel@ + ":"@ + decimal(line_number as nat) + ": "@ + trim(line@),
{
    let mut v = chars_of(rel);
    extend_str(&mut v, ":");
    let d = decimal_string(line_number as u64);
    extend_chars(&mut v, d.as_slice());
    extend_str(&mut v, ": ");
    let t = crate::text::trim_str(line);
    extend_chars(&mut v, t.as_slice());
    string_of(v.as_slice())
}

/// The hits of a `Grep` in one file's lines (`ls`, the first being line
/// `start + 1`): each line the pattern matches, in order; the search of the
/// whole workspace stops as soon as it holds `room` hits (at least one).
pub open spec fn grep_spec(rel: Seq<char>, ls: Seq<Seq<char>>, start: nat, pattern: Seq<char>, room: nat) -> Seq<Seq<char>>
    decreases ls.len(),
{
    if ls.len() == 0 {
        Seq::empty()
    } else if crate::patterns::regex_is_match(pattern, ls[0]) == Some(true) {
        seq![rel + ":"@ + decimal(start + 1) + ": "@ + trim(ls[0])] + if room <= 1 {
            Seq::<Seq<char>>::empty()
        } else {
            grep_spec(rel, ls.drop_first(), start + 1, pattern, (room - 1) as nat)
        }
    } else {
        grep_spec(rel, ls.drop_first(), start + 1, pattern, room)
    }
}

/// The `Grep` hits in one file's text, at most `room` of them (at least
/// one when there is any): `path:line: text` for each line that `pattern`
/// matches. A pattern that does not compile matches nothing.
pub fn grep_text(rel: &str, text: &str, pattern: &str, room: usize) -> (out: Vec<String>)
    ensures
        out@.map_values(|h: String| h@) == grep_spec(rel@, crate::markdown::lines(text@), 0, pattern@, room as nat),
{
    let c = chars_of(text);
    let ls = crate::markdown::split_lines(c.as_slice());
    let ghost lv = ls@.map_values(|v: Vec<char>| v@);
    let mut out: Vec<String> = Vec::new();
    let mut left: usize = room;
    let mut i: usize = 0;
    assert(lv.skip(0) =~= lv);
    while i < ls.len()
        invariant
            i <= ls@.len(),
            lv == ls@.map_values(|v: Vec<char>| v@),
            lv == crate::markdown::lines(text@),
            out@.map_values(|h: String| h@) + grep_spec(rel@, lv.skip(i as int), i as nat, pattern@, left as nat)
                == grep_spec(rel@, lv, 0, pattern@, room as nat),
        decreases ls@.len() - i,
    {
        let ghost rest = lv.skip(i as int);
        assert(rest[0] == ls@[i as int]@);
        assert(rest.drop_first() =~= lv.skip(i + 1));
        let line = string_of(ls[i].as_slice());
        if is_match(pattern, line.as_str()) == Some(true) {
            let hit = grep_hit(rel, i + 1, line.as_str());
            let ghost before = out@.map_values(|h: String| h@);
            out.push(hit);
            assert(out@.map_values(|h: String| h@) =~= before.push(hit@));
            if left <= 1 {
                assert(out@.map_values(|h: String| h@) + Seq::<Seq<char>>::empty() =~= out@.map_values(|h: String| h@));
                assert(before + (seq![hit@] + Seq::<Seq<char>>::empty()) =~= before.push(hit@));
                return out;
            }
            left = left - 1;
            assert(before + (seq![hit@] + grep_spec(rel@, lv.skip(i + 1), (i + 1) as nat, pattern@, left as nat))
                =~= before.push(hit@) + grep_spec(rel@, lv.skip(i + 1), (i + 1) as nat, pattern@, left as nat));
        }
        i += 1;
    }
    assert(lv.skip(i as int) =~= Seq::<Seq<char>>::empty());
    assert(out@.map_values(|h: String| h@) + Seq::<Seq<char>>::empty() =~= out@.map_values(|h: String| h@));
    out
}

// ---------------------------------------------------------------------------
// Monitors
// ---------------------------------------------------------------------------

/// What a `Monitor` call asks for.
pub enum MonitorRequest {
    Start(String),
    Read(u64),
    Stop(u64),
}

/// The `Monitor` action: `action`, or `start` when a command is given and
/// `read` otherwise.
pub open spec fn monitor_action_spec(args: JsonTree) -> Seq<char> {
    match str_member(args, "action"@) {
        Some(a) => a,
        None => if get(args, "command"@) is Some { "start"@ } else { "read"@ },
    }
}

pub open spec fn monitor_request_spec(args: JsonTree) -> Result<(u8, Seq<char>, u64), Seq<char>> {
    let action = monitor_action_spec(args);
    if action == "start"@ {
        match str_member(args, "command"@) {
            Some(c) => Ok((0, c, 0)),
            None => Err("missing string arg: command"@),
        }
    } else if action == "read"@ {
        Ok((1, Seq::empty(), u64_member_or(args, "id"@, 0)))
    } else if action == "stop"@ {
        Ok((2, Seq::empty(), u64_member_or(args, "id"@, 0)))
    } else {
        Err("unknown monitor action: "@ + action)
    }
}

pub open spec fn monitor_request_view(r: MonitorRequest) -> (u8, Seq<char>, u64) {
    match r {
        MonitorRequest::Start(c) => (0, c@, 0),
        MonitorRequest::Read(id) => (1, Seq::empty(), id),
        MonitorRequest::Stop(id) => (2, Seq::empty(), id),
    }
}

/// Read a `Monitor` call.
pub fn monitor_request(args: &Json) -> (r: Result<MonitorRequest, String>)
    ensures
        match r {
            Ok(m) => monitor_request_spec(args@) == Ok::<(u8, Seq<char>, u64), Seq<char>>(monitor_request_view(m)),
            Err(e) => monitor_request_spec(args@) == Err::<(u8, Seq<char>, u64), Seq<char>>(e@),
        },
{
    let action = match get_str(args, "action") {
        Some(a) => a,
        None => if args.get("command").is_some() { "start" } else { "read" },
    };
    let c = chars_of(action);
    let x = c.as_slice();
    if chars_eq_str(x, "start") {
        match get_str(args, "command") {
            Some(cmd) => Ok(MonitorRequest::Start(String::from_str(cmd))),
            None => Err(String::from_str("missing string arg: command")),
        }
    } else if chars_eq_str(x, "read") {
        Ok(MonitorRequest::Read(u64_arg(args, "id", 0)))
    } else if chars_eq_str(x, "stop") {
        Ok(MonitorRequest::Stop(u64_arg(args, "id", 0)))
    } else {
        let mut m = chars_of("unknown monitor action: ");
        extend_str(&mut m, action);
        Err(string_of(m.as_slice()))
    }
}

/// What reading a monitor answers: its id, command and state, and the
/// output gathered since the last read (cut to 16000 characters).
pub fn monitor_report(id: u64, command: &str, status: &str, lines: &Vec<String>) -> (out: String)
    ensures
        out@ == "monitor "@ + decimal(id as nat) + "\ncommand: "@ + command@ + "\nstatus: "@ + status@
            + "\noutput:\n"@ + truncate_dots(
                if lines@.len() == 0 { "(no new output)"@ } else { join(crate::mcp::string_views(lines@), "\n"@) },
                16000,
            ),
{
    let mut v = chars_of("monitor ");
    let d = decimal_string(id);
    extend_chars(&mut v, d.as_slice());
    extend_str(&mut v, "\ncommand: ");
    extend_str(&mut v, command);
    extend_str(&mut v, "\nstatus: ");
    extend_str(&mut v, status);
    extend_str(&mut v, "\noutput:\n");
    let body = if lines.len() == 0 {
        chars_of("(no new output)")
    } else {
        let mut parts: Vec<Vec<char>> = Vec::new();
        let mut i: usize = 0;
        while i < lines.len()
            invariant
                i <= lines@.len(),
                crate::text::views(parts@) == crate::mcp::string_views(lines@.take(i as int)),
            decreases lines@.len() - i,
        {
            let ghost before = parts@;
            parts.push(chars_of(lines[i].as_str()));
            assert(lines@.take(i + 1).drop_last() =~= lines@.take(i as int));
            assert(crate::text::views(parts@) =~= crate::text::views(before).push(lines@[i as int]@));
            i += 1;
        }
        assert(lines@.take(i as int) =~= lines@);
        crate::text::join_parts(&parts, "\n")
    };
    let cut = truncate_with_dots(body.as_slice(), 16000);
    extend_chars(&mut v, cut.as_slice());
    string_of(v.as_slice())
}

pub open spec fn monitor_entries(ms: Seq<(u64, String)>) -> Seq<Seq<char>>
    decreases ms.len(),
{
    if ms.len() == 0 {
        Seq::empty()
    } else {
        monitor_entries(ms.drop_last()).push(decimal(ms.last().0 as nat) + ": "@ + ms.last().1@)
    }
}

/// The running monitors, `id: command` one per line.
pub fn monitor_summary(monitors: &Vec<(u64, String)>) -> (out: String)
    ensures
        out@ == join(monitor_entries(monitors@), "\n"@),
{
    let mut parts: Vec<Vec<char>> = Vec::new();
    let mut i: usize = 0;
    while i < monitors.len()
        invariant
            i <= monitors@.len(),
            crate::text::views(parts@) == monitor_entries(monitors@.take(i as int)),
        decreases monitors@.len() - i,
    {
        let mut v = decimal_string(monitors[i].0);
        extend_str(&mut v, ": ");
        extend_str(&mut v, monitors[i].1.as_str());
        let ghost before = parts@;
        parts.push(v);
        assert(monitors@.take(i + 1).drop_last() =~= monitors@.take(i as int));
        assert(crate::text::views(parts@) =~= crate::text::views(before).push(v@));
        i += 1;
    }
    assert(monitors@.take(i as int) =~= monitors@);
    let j = crate::text::join_parts(&parts, "\n");
    string_of(j.as_slice())
}

// ---------------------------------------------------------------------------
// Asking the user
// ---------------------------------------------------------------------------

/// What the agent is told of the user's answer: the choice a number picks
/// (counting from one, `0` meaning the first), else the answer as typed.
pub open spec fn answer_spec(answer: Seq<char>, choices: Seq<Seq<char>>) -> Seq<char> {
    let a = trim(answer);
    match crate::text::parse_unsigned_spec(a, usize::MAX as nat) {
        Some(n) => {
            let k = if n == 0 { 0 } else { n - 1 };
            if k < choices.len() {
                "user selected: "@ + choices[k as int]
            } else {
                "user answered: "@ + a
            }
        },
        None => "user answered: "@ + a,
    }
}

/// Read the user's answer to an `AskUserQuestion`.
pub fn answer_text(answer: &str, choices: &Vec<String>) -> (out: String)
    ensures
        out@ == answer_spec(answer@, crate::mcp::string_views(choices@)),
{
    proof {
        crate::mcp::lemma_string_views(choices@);
    }
    let a = crate::text::trim_str(answer);
    if let Some(n) = parse_usize(a.as_slice()) {
        let k = if n == 0 { 0 } else { n - 1 };
        if k < choices.len() {
            let mut v = chars_of("user selected: ");
            extend_str(&mut v, choices[k].as_str());
            return string_of(v.as_slice());
        }
    }
    let mut v = chars_of("user answered: ");
    extend_chars(&mut v, a.as_slice());
    string_of(v.as_slice())
}

fn parse_usize(s: &[char]) -> (r: Option<usize>)
    ensures
        match r {
            Some(n) => crate::text::parse_unsigned_spec(s@, usize::MAX as nat) == Some(n as nat),
            None => crate::text::parse_unsigned_spec(s@, usize::MAX as nat) is None,
        },
{
    match crate::text::parse_u64(s) {
        Some(n) => {
            if n as u128 <= usize::MAX as u128 {
                Some(n as usize)
            } else {
                None
            }
        },
        None => {
            proof {
                if crate::text::parse_unsigned_spec(s@, usize::MAX as nat) is Some {
                    assert(usize::MAX <= u64::MAX);
                }
            }
            None
        },
    }
}

// ---------------------------------------------------------------------------
// Web pages
// ---------------------------------------------------------------------------

/// The five entities pages write for `&`, `<`, `>`, `"` and `'`, decoded in
/// that order.
pub open spec fn html_unescape_spec(s: Seq<char>) -> Seq<char> {
    replace_all(
        replace_all(replace_all(replace_all(replace_all(s, "&amp;"@, "&"@), "&lt;"@, "<"@), "&gt;"@, ">"@), "&quot;"@, "\""@),
        "&#39;"@,
        "'"@,
    )
}

/// Decode the common HTML entities.
pub fn html_unescape(s: &str) -> (out: String)
    ensures
        out@ == html_unescape_spec(s@),
{
    proof {
        reveal_strlit("&amp;");
        reveal_strlit("&lt;");
        reveal_strlit("&gt;");
        reveal_strlit("&quot;");
        reveal_strlit("&#39;");
    }
    let c = chars_of(s);
    let a = crate::text::replace_chars(c.as_slice(), "&amp;", "&");
    let b = crate::text::replace_chars(a.as_slice(), "&lt;", "<");
    let d = crate::text::replace_chars(b.as_slice(), "&gt;", ">");
    let e = crate::text::replace_chars(d.as_slice(), "&quot;", "\"");
    let f = crate::text::replace_chars(e.as_slice(), "&#39;", "'");
    string_of(f.as_slice())
}

/// The patterns stripped from a page, in order: scripts, styles, tags, then
/// runs of whitespace; each is replaced by a space.
pub open spec fn html_patterns() -> Seq<&'static str> {
    seq!["(?is)<script.*?</script>", "(?is)<style.*?</style>", "(?s)<[^>]+>", "\\s+"]
}

pub open spec fn strip_step(text: Seq<char>, pattern: Seq<char>) -> Seq<char> {
    match crate::memory::regex_replaced(pattern, text, " "@) {
        Some(t) => t,
        None => text,
    }
}

pub open spec fn strip_with(text: Seq<char>, pats: Seq<&'static str>) -> Seq<char>
    decreases pats.len(),
{
    if pats.len() == 0 {
        text
    } else {
        strip_step(strip_with(text, pats.drop_last()), pats.last()@)
    }
}

/// The text of a page: scripts, styles and tags removed, whitespace
/// squeezed, entities decoded, trimmed.
pub open spec fn strip_html_spec(html: Seq<char>) -> Seq<char> {
    trim(html_unescape_spec(strip_with(html, html_patterns())))
}

/// The readable text of a page.
pub fn strip_html(html: &str) -> (out: String)
    ensures
        out@ == strip_html_spec(html@),
{
    let pats: [&str; 4] = ["(?is)<script.*?</script>", "(?is)<style.*?</style>", "(?s)<[^>]+>", "\\s+"];
    assert(pats@ == html_patterns());
    let mut s = String::from_str(html);
    let mut i: usize = 0;
    while i < 4
        invariant
            i <= 4,
            pats@ == html_patterns(),
            s@ == strip_with(html@, html_patterns().take(i as int)),
        decreases 4 - i,
    {
        assert(html_patterns().take(i + 1).drop_last() =~= html_patterns().take(i as int));
        match crate::memory::regex_replace_all(pats[i], s.as_str(), " ") {
            Some(t) => {
                s = t;
            },
            None => {},
        }
        i += 1;
    }
    assert(html_patterns().take(4) =~= html_patterns());
    let u = html_unescape(s.as_str());
    let t = crate::text::trim_str(u.as_str());
    string_of(t.as_slice())
}

/// The value of a hexadecimal digit byte (either case), if it is one.
pub open spec fn hex_value(b: u8) -> Option<u8> {
    if 48 <= b <= 57 {
        Some((b - 48) as u8)
    } else if 65 <= b <= 70 {
        Some((b - 55) as u8)
    } else if 97 <= b <= 102 {
        Some((b - 87) as u8)
    } else {
        None
    }
}

/// Percent-decoding of bytes: each `%` followed by two hexadecimal digits
/// stands for the byte they spell; every other byte, a lone `%` included,
/// stands for itself. `+` is kept.
pub open spec fn percent_decode(b: Seq<u8>) -> Seq<u8>
    decreases b.len(),
{
    if b.len() == 0 {
        Seq::empty()
    } else if b[0] == 37 && b.len() >= 3 && hex_value(b[1]) is Some && hex_value(b[2]) is Some {
        seq![(hex_value(b[1])->0 * 16 + hex_value(b[2])->0) as u8] + percent_decode(b.skip(3))
    } else {
        seq![b[0]] + percent_decode(b.drop_first())
    }
}

/// What `urlencoding::decode` gives for `s`: its UTF-8 bytes percent-decoded,
/// when they are UTF-8 again.
pub open spec fn url_decoded(s: Seq<char>) -> Option<Seq<char>> {
    let d = percent_decode(vstd::utf8::encode_utf8(s));
    if vstd::utf8::valid_utf8(d) { Some(vstd::utf8::decode_utf8(d)) } else { None }
}

/// `urlencoding::decode`: percent-decoding of the text's UTF-8 bytes, then a
/// UTF-8 check.
#[verifier::external_body]
fn url_decode(s: &str) -> (r: Option<String>)
    ensures
        match r {
            Some(t) => url_decoded(s@) == Some(t@),
            None => url_decoded(s@) is None,
        },
{
    urlencoding::decode(s).ok().map(|c| c.into_owned())
}

/// The bytes a URL keeps as they are: ASCII letters and digits, `-`, `.`,
/// `_` and `~`.
pub open spec fn url_safe(b: u8) -> bool {
    (48 <= b <= 57) || (65 <= b <= 90) || (97 <= b <= 122) || b == 45 || b == 46 || b == 95 || b == 126
}

/// An uppercase hexadecimal digit.
pub open spec fn upper_hex(d: u8) -> char {
    if d < 10 { (48 + d) as char } else { (55 + d) as char }
}

/// Percent-encoding of bytes: safe bytes as their characters, every other
/// byte as `%` and two uppercase hexadecimal digits.
pub open spec fn percent_encode(b: Seq<u8>) -> Seq<char>
    decreases b.len(),
{
    if b.len() == 0 {
        Seq::empty()
    } else {
        percent_encode(b.drop_last()) + if url_safe(b.last()) {
            seq![b.last() as char]
        } else {
            seq!['%', upper_hex(b.last() / 16), upper_hex(b.last() % 16)]
        }
    }
}

/// What `urlencoding::encode` gives for `s`: its UTF-8 bytes percent-encoded.
pub open spec fn url_encoded(s: Seq<char>) -> Seq<char> {
    percent_encode(vstd::utf8::encode_utf8(s))
}

/// `urlencoding::encode`: percent-encoding of the text's UTF-8 bytes.
#[verifier::external_body]
fn url_encode(s: &str) -> (r: String)
    ensures
        r@ == url_encoded(s@),
{
    urlencoding::encode(s).into_owned()
}

/// The link a search result points at: the decoded `uddg` parameter of a
/// redirect link (up to the next `&`), else the link itself.
pub open spec fn clean_url_spec(url: Seq<char>) -> Seq<char> {
    let pos = find_sub(url, "uddg="@, 0);
    if pos < 0 {
        url
    } else {
        let part = url.skip(pos + 5);
        let end = find_sub(part, "&"@, 0);
        let raw = if end < 0 { part } else { part.take(end) };
        match url_decoded(raw) {
            Some(t) => t,
            None => raw,
        }
    }
}

/// Follow a search engine's redirect link to the result's own address.
pub fn clean_url(url: &str) -> (out: String)
    ensures
        out@ == clean_url_spec(url@),
{
    proof {
        reveal_strlit("uddg=");
        reveal_strlit("&");
    }
    assert("uddg="@.len() == 5);
    assert("&"@.len() == 1);
    let c = chars_of(url);
    let key = chars_of("uddg=");
    match find_sub_exec(c.as_slice(), key.as_slice(), 0) {
        None => String::from_str(url),
        Some(pos) => {
            assert(c@ == url@);
            assert(key@ == "uddg="@);
            assert(key@.len() == 5);
            assert(pos + 5 <= c.len());
            let start: usize = pos + 5;
            let part = slice_chars(c.as_slice(), start, c.len());
            assert(part@ =~= url@.skip(pos + 5));
            let amp = chars_of("&");
            let raw = match find_sub_exec(part.as_slice(), amp.as_slice(), 0) {
                Some(end) => {
                    proof {
                        crate::text::lemma_find_sub_range(part@, amp@, 0);
                    }
                    let r = slice_chars(part.as_slice(), 0, end);
                    assert(r@ =~= part@.take(end as int));
                    r
                },
                None => {
                    let r = slice_chars(part.as_slice(), 0, part.len());
                    assert(r@ =~= part@);
                    r
                },
            };
            let rs = string_of(raw.as_slice());
            assert(rs@ == ({
                let e = find_sub(url@.skip(pos + 5), "&"@, 0);
                if e < 0 { url@.skip(pos + 5) } else { url@.skip(pos + 5).take(e) }
            }));
            match url_decode(rs.as_str()) {
                Some(t) => t,
                None => rs,
            }
        },
    }
}

/// The address of a web search for `query`.
pub fn search_url(query: &str) -> (out: String)
    ensures
        out@ == "https://duckduckgo.com/html/?q="@ + url_encoded(query@),
{
    let mut v = chars_of("https://duckduckgo.com/html/?q=");
    let e = url_encode(query);
    extend_str(&mut v, e.as_str());
    string_of(v.as_slice())
}

/// The pattern that finds result links and titles in a results page.
pub open spec fn result_pattern() -> Seq<char> {
    "(?s)<a[^>]*class=\"result__a\"[^>]*href=\"([^\"]+)\"[^>]*>(.*?)</a>"@
}

pub open spec fn result_lines(pairs: Seq<(Seq<char>, Seq<char>)>) -> Seq<Seq<char>>
    decreases pairs.len(),
{
    if pairs.len() == 0 {
        Seq::empty()
    } else {
        result_lines(pairs.drop_last()).push(
            "- "@ + strip_html_spec(pairs.last().1) + "\n  "@ + clean_url_spec(html_unescape_spec(pairs.last().0)),
        )
    }
}

/// The results a search page lists, at most `limit`: title and address of
/// each, or a note when none could be read.
pub open spec fn search_results_spec(html: Seq<char>, limit: nat) -> Seq<char> {
    let pairs = match crate::patterns::regex_capture_pairs(result_pattern(), html) {
        Some(p) => p,
        None => Seq::empty(),
    };
    let shown = if pairs.len() <= limit { pairs } else { pairs.take(limit as int) };
    if shown.len() == 0 {
        "no web search results parsed"@
    } else {
        join(result_lines(shown), "\n"@)
    }
}

/// Read the results out of a search page.
pub fn search_results(html: &str, limit: usize) -> (out: String)
    ensures
        out@ == search_results_spec(html@, limit as nat),
{
    let pairs = match crate::patterns::capture_pairs("(?s)<a[^>]*class=\"result__a\"[^>]*href=\"([^\"]+)\"[^>]*>(.*?)</a>", html) {
        Some(p) => p,
        None => Vec::new(),
    };
    let ghost pv = match crate::patterns::regex_capture_pairs(result_pattern(), html@) {
        Some(p) => p,
        None => Seq::<(Seq<char>, Seq<char>)>::empty(),
    };
    assert(pv =~= pairs@.map_values(|p: (String, String)| (p.0@, p.1@)));
    let n: usize = if pairs.len() <= limit { pairs.len() } else { limit };
    let ghost shown = if pv.len() <= limit { pv } else { pv.take(limit as int) };
    if n == 0 {
        return String::from_str("no web search results parsed");
    }
    let mut parts: Vec<Vec<char>> = Vec::new();
    let mut i: usize = 0;
    while i < n
        invariant
            i <= n,
            n <= pairs@.len(),
            pv.len() == pairs@.len(),
            forall|j: int| 0 <= j < pairs@.len() ==> #[trigger] pv[j] == (pairs@[j].0@, pairs@[j].1@),
            shown == pv.take(n as int),
            crate::text::views(parts@) == result_lines(shown.take(i as int)),
        decreases n - i,
    {
        let title = strip_html(pairs[i].1.as_str());
        let un = html_unescape(pairs[i].0.as_str());
        let link = clean_url(un.as_str());
        let mut v = chars_of("- ");
        extend_str(&mut v, title.as_str());
        extend_str(&mut v, "\n  ");
        extend_str(&mut v, link.as_str());
        let ghost before = parts@;
        parts.push(v);
        proof {
            assert(shown.take(i + 1).drop_last() =~= shown.take(i as int));
            assert(shown.take(i + 1).last() == pv[i as int]);
            assert(crate::text::views(parts@) =~= crate::text::views(before).push(v@));
        }
        i += 1;
    }
    assert(shown.take(i as int) =~= shown);
    let j = crate::text::join_parts(&parts, "\n");
    string_of(j.as_slice())
}

/// What a `WebFetch` answers: the final address and the page's text cut to
/// `max` characters.
pub fn fetch_report(final_url: &str, body: &str, max: usize) -> (out: String)
    ensures
        out@ == "url: "@ + final_url@ + "\n\n"@ + truncate_dots(strip_html_spec(body@), max as nat),
{
    let mut v = chars_of("url: ");
    extend_str(&mut v, final_url);
    extend_str(&mut v, "\n\n");
    let text = strip_html(body);
    let t = chars_of(text.as_str());
    let cut = truncate_with_dots(t.as_slice(), max);
    extend_chars(&mut v, cut.as_slice());
    string_of(v.as_slice())
}

} // verus!

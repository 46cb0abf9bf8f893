//! MCP plumbing: the built-in plugin registry, the `/mcp` and plugin slash
//! commands and the `Mcp` tool's arguments, the configured servers and how
//! they are listed, and the JSON-RPC messages exchanged with a server.
//! Spawning servers and moving messages is the platform layer's.
use vstd::prelude::*;
use vstd::string::StrSliceExecFns;
use crate::text::{
    chars_eq_str, chars_of, extend_chars, extend_str, is_ws, slice_chars, string_of, trim,
    trim_chars, trim_start, trim_start_index, word_len, word_len_exec,
};
use crate::json::{get, json_compact, json_parse, json_str, members3, members4, parse_json, str_member, Json, JsonTree};

verus! {

broadcast use vstd::string::group_string_axioms;

/// Which built-in plugin an entry installs.
#[derive(Clone, Copy, Debug, PartialEq, Eq, Structural)]
pub enum PluginKind {
    BiscuitBrowser,
    BiscuitGui,
}

/// A built-in plugin: its name, transport and what it does.
pub struct Plugin {
    pub name: &'static str,
    pub transport: &'static str,
    pub description: &'static str,
    pub kind: PluginKind,
}

/// The built-in plugins, in listing order.
pub fn plugin_registry() -> (out: Vec<Plugin>)
    ensures
        out@.len() == 2,
        out@[0].name@ == "biscuit-browser"@,
        out@[0].transport@ == "http"@,
        out@[0].kind == PluginKind::BiscuitBrowser,
        out@[1].name@ == "biscuit-gui"@,
        out@[1].transport@ == "stdio"@,
        out@[1].kind == PluginKind::BiscuitGui,
        out@[0].description@ == "Drive Biscuit Browser (open/click/type/read pages) over its local MCP server."@,
        out@[1].description@ == "Local GUI automation tools via the biscuit-gui-mcp stdio server."@,
{
    vec![
        Plugin {
            name: "biscuit-browser",
            transport: "http",
            description: "Drive Biscuit Browser (open/click/type/read pages) over its local MCP server.",
            kind: PluginKind::BiscuitBrowser,
        },
        Plugin {
            name: "biscuit-gui",
            transport: "stdio",
            description: "Local GUI automation tools via the biscuit-gui-mcp stdio server.",
            kind: PluginKind::BiscuitGui,
        },
    ]
}

/// What follows `command` in `input`, when `input` starts with `command` as a
/// whole word (followed by nothing or by whitespace).
pub open spec fn command_rest_spec(input: Seq<char>, command: Seq<char>) -> Option<Seq<char>> {
    if !command.is_prefix_of(input) {
        None
    } else {
        let rest = input.skip(command.len() as int);
        if rest.len() == 0 || is_ws(rest[0]) { Some(rest) } else { None }
    }
}

/// The arguments after a slash command, respecting the word boundary.
pub fn command_rest<'a>(input: &'a str, command: &str) -> (r: Option<&'a str>)
    ensures
        match r {
            Some(s) => command_rest_spec(input@, command@) == Some(s@),
            None => command_rest_spec(input@, command@) is None,
        },
{
    let v = crate::text::chars_of(input);
    if !crate::text::starts_with_str(v.as_slice(), command) {
        return None;
    }
    let n = command.unicode_len();
    let rest = crate::text::slice_chars(v.as_slice(), n, v.len());
    assert(rest@ =~= input@.skip(n as int));
    if rest.len() == 0 || crate::text::is_whitespace(rest[0]) {
        Some(input.substring_char(n, v.len()))
    } else {
        None
    }
}

// ---------------------------------------------------------------------------
// Words and names
// ---------------------------------------------------------------------------

/// The first whitespace-separated word of `input` and the text after it,
/// leading whitespace removed from both.
pub open spec fn next_word_spec(input: Seq<char>) -> (Seq<char>, Seq<char>) {
    let t = trim_start(input);
    let k = word_len(t);
    (t.take(k as int), trim_start(t.skip(k as int)))
}

/// Split off the first word of `input`.
pub fn next_word(input: &[char]) -> (r: (Vec<char>, Vec<char>))
    ensures
        (r.0@, r.1@) == next_word_spec(input@),
{
    let a = trim_start_index(input);
    let t = slice_chars(input, a, input.len());
    assert(t@ =~= trim_start(input@));
    let k = word_len_exec(t.as_slice());
    let word = slice_chars(t.as_slice(), 0, k);
    let after = slice_chars(t.as_slice(), k, t.len());
    assert(after@ =~= t@.skip(k as int));
    let b = trim_start_index(after.as_slice());
    let rest = slice_chars(after.as_slice(), b, after.len());
    assert(rest@ =~= trim_start(after@));
    (word, rest)
}

/// The first word of `input`, or `usage` as the error when there is none.
pub fn required_word(input: &[char], usage: &str) -> (r: Result<Vec<char>, String>)
    ensures
        match r {
            Ok(w) => w@ == next_word_spec(input@).0 && w@.len() > 0,
            Err(e) => next_word_spec(input@).0.len() == 0 && e@ == usage@,
        },
{
    let (w, _) = next_word(input);
    if w.len() == 0 {
        Err(String::from_str(usage))
    } else {
        Ok(w)
    }
}

/// A server command with an optional leading `--` marker removed.
pub open spec fn command_marker_spec(command: Seq<char>) -> Seq<char> {
    let t = trim_start(command);
    if "--"@.is_prefix_of(t) { trim_start(t.skip(2)) } else { t }
}

/// Drop the `--` that may separate a server's name from its command.
pub fn trim_command_marker(command: &[char]) -> (r: Vec<char>)
    ensures
        r@ == command_marker_spec(command@),
{
    let a = trim_start_index(command);
    let t = slice_chars(command, a, command.len());
    assert(t@ =~= trim_start(command@));
    proof {
        reveal_strlit("--");
    }
    if crate::text::starts_with_str(t.as_slice(), "--") {
        let rest = slice_chars(t.as_slice(), 2, t.len());
        assert(rest@ =~= t@.skip(2));
        let b = trim_start_index(rest.as_slice());
        let r = slice_chars(rest.as_slice(), b, rest.len());
        assert(r@ =~= trim_start(rest@));
        r
    } else {
        t
    }
}

/// Characters allowed in a server name.
pub open spec fn name_char(c: char) -> bool {
    ('a' <= c && c <= 'z') || ('A' <= c && c <= 'Z') || ('0' <= c && c <= '9') || c == '_' || c == '-' || c == '.'
}

/// A server name: trimmed, not empty, and made of letters, digits, `_`,
/// `-` and `.` only.
pub open spec fn clean_name_spec(name: Seq<char>) -> Result<Seq<char>, Seq<char>> {
    let n = trim(name);
    if n.len() == 0 {
        Err("MCP server name cannot be empty"@)
    } else if !(forall|i: int| 0 <= i < n.len() ==> name_char(#[trigger] n[i])) {
        Err("MCP server names may only use letters, numbers, _, -, and ."@)
    } else {
        Ok(n)
    }
}

/// Check and trim a server name.
pub fn clean_name(name: &str) -> (r: Result<String, String>)
    ensures
        match r {
            Ok(n) => clean_name_spec(name@) == Ok::<Seq<char>, Seq<char>>(n@),
            Err(e) => clean_name_spec(name@) == Err::<Seq<char>, Seq<char>>(e@),
        },
{
    let n = crate::text::trim_str(name);
    if n.len() == 0 {
        return Err(String::from_str("MCP server name cannot be empty"));
    }
    let mut i: usize = 0;
    while i < n.len()
        invariant
            i <= n@.len(),
            n@ == trim(name@),
            forall|j: int| 0 <= j < i ==> name_char(#[trigger] n@[j]),
        decreases n@.len() - i,
    {
        let c = n[i];
        if !(('a' <= c && c <= 'z') || ('A' <= c && c <= 'Z') || ('0' <= c && c <= '9') || c == '_' || c == '-'
            || c == '.') {
            assert(!name_char(n@[i as int]));
            assert(!(forall|j: int| 0 <= j < n@.len() ==> name_char(#[trigger] n@[j])));
            assert(n@ == trim(name@));
            return Err(String::from_str("MCP server names may only use letters, numbers, _, -, and ."));
        }
        i += 1;
    }
    Ok(string_of(n.as_slice()))
}

// ---------------------------------------------------------------------------
// Commands
// ---------------------------------------------------------------------------

/// What a `/mcp` or plugin command, or a call of the `Mcp` tool, asks for.
pub enum McpCommand {
    Help,
    Connect(String, String, bool),
    Start(String),
    Stop(String),
    Remove(String),
    List,
    Tools(Option<String>),
    Call(String, String, Json),
    Plugins,
    Install(String),
    Uninstall(String),
}

/// The view of a command: its kind, up to two text arguments, a flag, and
/// the JSON arguments of a call.
pub type CommandView = (u8, Seq<char>, Seq<char>, bool, Option<JsonTree>);

pub open spec fn command_view(c: McpCommand) -> CommandView {
    match c {
        McpCommand::Help => (0, Seq::empty(), Seq::empty(), false, None),
        McpCommand::Connect(n, cmd, auto) => (1, n@, cmd@, auto, None),
        McpCommand::Start(n) => (2, n@, Seq::empty(), false, None),
        McpCommand::Stop(n) => (3, n@, Seq::empty(), false, None),
        McpCommand::Remove(n) => (4, n@, Seq::empty(), false, None),
        McpCommand::List => (5, Seq::empty(), Seq::empty(), false, None),
        McpCommand::Tools(s) => match s {
            Some(x) => (6, x@, Seq::empty(), true, None),
            None => (6, Seq::empty(), Seq::empty(), false, None),
        },
        McpCommand::Call(srv, tool, a) => (7, srv@, tool@, false, Some(a@)),
        McpCommand::Plugins => (8, Seq::empty(), Seq::empty(), false, None),
        McpCommand::Install(n) => (9, n@, Seq::empty(), false, None),
        McpCommand::Uninstall(n) => (10, n@, Seq::empty(), false, None),
    }
}

pub open spec fn bare_cmd(kind: u8) -> CommandView {
    (kind, Seq::empty(), Seq::empty(), false, None)
}

pub open spec fn named_cmd(kind: u8, name: Seq<char>) -> CommandView {
    (kind, name, Seq::empty(), false, None)
}

/// A required word: the word, or the usage text when there is none.
pub open spec fn required_spec(input: Seq<char>, usage: Seq<char>) -> Result<Seq<char>, Seq<char>> {
    let w = next_word_spec(input).0;
    if w.len() == 0 { Err(usage) } else { Ok(w) }
}

pub open spec fn named_or_usage(kind: u8, input: Seq<char>, usage: Seq<char>) -> Result<CommandView, Seq<char>> {
    match required_spec(input, usage) {
        Ok(w) => Ok(named_cmd(kind, w)),
        Err(e) => Err(e),
    }
}

/// JSON arguments typed after `/mcp call`: `{}` when blank.
pub open spec fn json_args_spec(text: Seq<char>) -> Result<JsonTree, Seq<char>> {
    let t = trim(text);
    if t.len() == 0 { Ok(JsonTree::Object(Seq::empty())) } else { json_parse(t) }
}

/// The plugin commands: `/plugins`, `/install`, `/uninstall`, `/plugin`.
pub open spec fn plugin_command_spec(input: Seq<char>) -> Option<Result<CommandView, Seq<char>>> {
    if let Some(rest) = command_rest_spec(input, "/plugins"@) {
        Some(if trim(rest).len() > 0 { Err("usage: /plugins"@) } else { Ok(bare_cmd(8)) })
    } else if let Some(rest) = command_rest_spec(input, "/install"@) {
        Some(named_or_usage(9, rest, "usage: /install <name>"@))
    } else if let Some(rest) = command_rest_spec(input, "/uninstall"@) {
        Some(named_or_usage(10, rest, "usage: /uninstall <name>"@))
    } else if let Some(rest) = command_rest_spec(input, "/plugin"@) {
        let (action, more) = next_word_spec(trim(rest));
        Some(if action == "start"@ {
            named_or_usage(2, more, "usage: /plugin start <name>"@)
        } else if action == "stop"@ {
            named_or_usage(3, more, "usage: /plugin stop <name>"@)
        } else if action.len() == 0 {
            Ok(bare_cmd(8))
        } else {
            Err("unknown /plugin action: "@ + action)
        })
    } else {
        None
    }
}

/// The `/mcp` actions, given what follows `/mcp` (trimmed).
pub open spec fn mcp_action_spec(rest: Seq<char>) -> Result<CommandView, Seq<char>> {
    if rest.len() == 0 || rest == "help"@ {
        Ok(bare_cmd(0))
    } else {
        let (action, more) = next_word_spec(rest);
        if action == "add"@ || action == "connect"@ {
            let (name, command) = next_word_spec(more);
            if name.len() == 0 || trim(command).len() == 0 {
                Err("usage: /mcp connect <name> [--] <command>"@)
            } else {
                Ok((1, name, command_marker_spec(command), true, None))
            }
        } else if action == "start"@ {
            named_or_usage(2, more, "usage: /mcp start <name>"@)
        } else if action == "stop"@ || action == "disconnect"@ {
            named_or_usage(3, more, "usage: /mcp stop <name>"@)
        } else if action == "remove"@ || action == "rm"@ {
            named_or_usage(4, more, "usage: /mcp remove <name>"@)
        } else if action == "list"@ || action == "status"@ {
            Ok(bare_cmd(5))
        } else if action == "tools"@ {
            let server = trim(more);
            Ok(if server.len() == 0 { bare_cmd(6) } else { (6, server, Seq::empty(), true, None) })
        } else if action == "call"@ {
            let (server, more2) = next_word_spec(more);
            let (tool, args) = next_word_spec(more2);
            if server.len() == 0 || tool.len() == 0 {
                Err("usage: /mcp call <server> <tool> [json-arguments]"@)
            } else {
                match json_args_spec(args) {
                    Ok(a) => Ok((7, server, tool, false, Some(a))),
                    Err(e) => Err(e),
                }
            }
        } else {
            Err("unknown /mcp action: "@ + action)
        }
    }
}

/// The MCP command a line is, if it is one: the plugin commands first, then
/// `/mcp` as a whole word.
pub open spec fn mcp_command_spec(input: Seq<char>) -> Option<Result<CommandView, Seq<char>>> {
    match plugin_command_spec(input) {
        Some(r) => Some(r),
        None => match command_rest_spec(input, "/mcp"@) {
            Some(rest) => Some(mcp_action_spec(trim(rest))),
            None => None,
        },
    }
}

pub open spec fn parsed_view(r: Result<McpCommand, String>) -> Result<CommandView, Seq<char>> {
    match r {
        Ok(c) => Ok(command_view(c)),
        Err(e) => Err(e@),
    }
}

fn named(kind: u8, input: &[char], usage: &str) -> (r: Result<McpCommand, String>)
    requires
        kind == 2 || kind == 3 || kind == 4 || kind == 9 || kind == 10,
    ensures
        parsed_view(r) == named_or_usage(kind, input@, usage@),
{
    let w = required_word(input, usage)?;
    let n = string_of(w.as_slice());
    Ok(if kind == 2 {
        McpCommand::Start(n)
    } else if kind == 3 {
        McpCommand::Stop(n)
    } else if kind == 4 {
        McpCommand::Remove(n)
    } else if kind == 9 {
        McpCommand::Install(n)
    } else {
        McpCommand::Uninstall(n)
    })
}

fn prefixed_error(head: &str, word: &[char]) -> (r: String)
    ensures
        r@ == head@ + word@,
{
    let mut v = chars_of(head);
    extend_chars(&mut v, word);
    string_of(v.as_slice())
}

fn plugin_command(input: &str) -> (r: Option<Result<McpCommand, String>>)
    ensures
        match r {
            Some(x) => plugin_command_spec(input@) == Some(parsed_view(x)),
            None => plugin_command_spec(input@) is None,
        },
{
    if let Some(rest) = command_rest(input, "/plugins") {
        let t = crate::text::trim_str(rest);
        return Some(if t.len() > 0 { Err(String::from_str("usage: /plugins")) } else { Ok(McpCommand::Plugins) });
    }
    if let Some(rest) = command_rest(input, "/install") {
        let c = chars_of(rest);
        return Some(named(9, c.as_slice(), "usage: /install <name>"));
    }
    if let Some(rest) = command_rest(input, "/uninstall") {
        let c = chars_of(rest);
        return Some(named(10, c.as_slice(), "usage: /uninstall <name>"));
    }
    if let Some(rest) = command_rest(input, "/plugin") {
        let t = crate::text::trim_str(rest);
        let (action, more) = next_word(t.as_slice());
        let a = action.as_slice();
        return Some(if chars_eq_str(a, "start") {
            named(2, more.as_slice(), "usage: /plugin start <name>")
        } else if chars_eq_str(a, "stop") {
            named(3, more.as_slice(), "usage: /plugin stop <name>")
        } else if a.len() == 0 {
            Ok(McpCommand::Plugins)
        } else {
            Err(prefixed_error("unknown /plugin action: ", a))
        });
    }
    None
}

/// Parse JSON arguments typed on the command line; blank text is `{}`.
pub fn parse_json_args(text: &[char]) -> (r: Result<Json, String>)
    ensures
        match r {
            Ok(j) => json_args_spec(text@) == Ok::<JsonTree, Seq<char>>(j@),
            Err(e) => json_args_spec(text@) == Err::<JsonTree, Seq<char>>(e@),
        },
{
    let t = trim_chars(text);
    if t.len() == 0 {
        let v: Vec<(String, Json)> = Vec::new();
        assert(crate::json::members_of(v@) =~= Seq::empty());
        return Ok(Json::Object(v));
    }
    let s = string_of(t.as_slice());
    parse_json(s.as_str())
}

fn mcp_action(rest: &[char]) -> (r: Result<McpCommand, String>)
    ensures
        parsed_view(r) == mcp_action_spec(rest@),
{
    if rest.len() == 0 || chars_eq_str(rest, "help") {
        return Ok(McpCommand::Help);
    }
    let (action, more) = next_word(rest);
    let a = action.as_slice();
    if chars_eq_str(a, "add") || chars_eq_str(a, "connect") {
        let (name, command) = next_word(more.as_slice());
        let tc = trim_chars(command.as_slice());
        if name.len() == 0 || tc.len() == 0 {
            return Err(String::from_str("usage: /mcp connect <name> [--] <command>"));
        }
        let cmd = trim_command_marker(command.as_slice());
        Ok(McpCommand::Connect(string_of(name.as_slice()), string_of(cmd.as_slice()), true))
    } else if chars_eq_str(a, "start") {
        named(2, more.as_slice(), "usage: /mcp start <name>")
    } else if chars_eq_str(a, "stop") || chars_eq_str(a, "disconnect") {
        named(3, more.as_slice(), "usage: /mcp stop <name>")
    } else if chars_eq_str(a, "remove") || chars_eq_str(a, "rm") {
        named(4, more.as_slice(), "usage: /mcp remove <name>")
    } else if chars_eq_str(a, "list") || chars_eq_str(a, "status") {
        Ok(McpCommand::List)
    } else if chars_eq_str(a, "tools") {
        let server = trim_chars(more.as_slice());
        Ok(McpCommand::Tools(if server.len() == 0 { None } else { Some(string_of(server.as_slice())) }))
    } else if chars_eq_str(a, "call") {
        let (server, more2) = next_word(more.as_slice());
        let (tool, args) = next_word(more2.as_slice());
        if server.len() == 0 || tool.len() == 0 {
            return Err(String::from_str("usage: /mcp call <server> <tool> [json-arguments]"));
        }
        let j = parse_json_args(args.as_slice())?;
        Ok(McpCommand::Call(string_of(server.as_slice()), string_of(tool.as_slice()), j))
    } else {
        Err(prefixed_error("unknown /mcp action: ", a))
    }
}

/// The MCP or plugin command `input` is, if it is one, or why it is
/// malformed.
pub fn mcp_command(input: &str) -> (r: Option<Result<McpCommand, String>>)
    ensures
        match r {
            Some(x) => mcp_command_spec(input@) == Some(parsed_view(x)),
            None => mcp_command_spec(input@) is None,
        },
{
    if let Some(x) = plugin_command(input) {
        return Some(x);
    }
    match command_rest(input, "/mcp") {
        Some(rest) => {
            let t = crate::text::trim_str(rest);
            Some(mcp_action(t.as_slice()))
        },
        None => None,
    }
}

/// The first of the string members `keys` of `args` that is present.
pub open spec fn any_str_member(args: JsonTree, keys: Seq<Seq<char>>) -> Option<Seq<char>>
    decreases keys.len(),
{
    if keys.len() == 0 {
        None
    } else {
        match str_member(args, keys[0]) {
            Some(v) => Some(v),
            None => any_str_member(args, keys.drop_first()),
        }
    }
}

pub open spec fn any_arg_spec(args: JsonTree, keys: Seq<Seq<char>>, joined: Seq<char>) -> Result<Seq<char>, Seq<char>> {
    match any_str_member(args, keys) {
        Some(v) => Ok(v),
        None => Err("missing string arg: "@ + joined),
    }
}

fn any_arg2(args: &Json, a: &str, b: &str) -> (r: Result<String, String>)
    ensures
        match r {
            Ok(v) => any_arg_spec(args@, seq![a@, b@], a@ + "/"@ + b@) == Ok::<Seq<char>, Seq<char>>(v@),
            Err(e) => any_arg_spec(args@, seq![a@, b@], a@ + "/"@ + b@) == Err::<Seq<char>, Seq<char>>(e@),
        },
{
    proof {
        reveal_with_fuel(any_str_member, 3);
    }
    assert(seq![a@, b@].drop_first() =~= seq![b@]);
    assert(seq![b@].drop_first() =~= Seq::<Seq<char>>::empty());
    if let Some(v) = crate::json::get_str(args, a) {
        return Ok(String::from_str(v));
    }
    if let Some(v) = crate::json::get_str(args, b) {
        return Ok(String::from_str(v));
    }
    let mut m = chars_of("missing string arg: ");
    extend_str(&mut m, a);
    extend_str(&mut m, "/");
    extend_str(&mut m, b);
    assert(m@ =~= "missing string arg: "@ + (a@ + "/"@ + b@));
    Err(string_of(m.as_slice()))
}

fn any_arg3(args: &Json, a: &str, b: &str, c: &str) -> (r: Result<String, String>)
    ensures
        match r {
            Ok(v) => any_arg_spec(args@, seq![a@, b@, c@], a@ + "/"@ + b@ + "/"@ + c@) == Ok::<Seq<char>, Seq<char>>(v@),
            Err(e) => any_arg_spec(args@, seq![a@, b@, c@], a@ + "/"@ + b@ + "/"@ + c@) == Err::<Seq<char>, Seq<char>>(e@),
        },
{
    proof {
        reveal_with_fuel(any_str_member, 4);
    }
    assert(seq![a@, b@, c@].drop_first() =~= seq![b@, c@]);
    assert(seq![b@, c@].drop_first() =~= seq![c@]);
    assert(seq![c@].drop_first() =~= Seq::<Seq<char>>::empty());
    if let Some(v) = crate::json::get_str(args, a) {
        return Ok(String::from_str(v));
    }
    if let Some(v) = crate::json::get_str(args, b) {
        return Ok(String::from_str(v));
    }
    if let Some(v) = crate::json::get_str(args, c) {
        return Ok(String::from_str(v));
    }
    let mut m = chars_of("missing string arg: ");
    extend_str(&mut m, a);
    extend_str(&mut m, "/");
    extend_str(&mut m, b);
    extend_str(&mut m, "/");
    extend_str(&mut m, c);
    assert(m@ =~= "missing string arg: "@ + (a@ + "/"@ + b@ + "/"@ + c@));
    Err(string_of(m.as_slice()))
}

pub open spec fn name_arg(args: JsonTree) -> Result<Seq<char>, Seq<char>> {
    any_arg_spec(args, seq!["name"@, "server"@], "name"@ + "/"@ + "server"@)
}

pub open spec fn named_tool_cmd(kind: u8, args: JsonTree) -> Result<CommandView, Seq<char>> {
    match name_arg(args) {
        Ok(n) => Ok(named_cmd(kind, n)),
        Err(e) => Err(e),
    }
}

/// What a call of the `Mcp` tool with `args` asks for: `action` (any case,
/// `list` when absent) and its arguments.
pub open spec fn tool_command_spec(args: JsonTree) -> Result<CommandView, Seq<char>> {
    let action = crate::text::unicode_lowercase(match str_member(args, "action"@) {
        Some(a) => a,
        None => "list"@,
    });
    if action == "add"@ || action == "connect"@ {
        match name_arg(args) {
            Err(e) => Err(e),
            Ok(n) => match str_member(args, "command"@) {
                None => Err("missing string arg: command"@),
                Some(c) => Ok((1, n, c, match crate::json::bool_member(args, "auto_start"@) {
                    Some(b) => b,
                    None => true,
                }, None)),
            },
        }
    } else if action == "start"@ {
        named_tool_cmd(2, args)
    } else if action == "stop"@ || action == "disconnect"@ {
        named_tool_cmd(3, args)
    } else if action == "remove"@ || action == "rm"@ {
        named_tool_cmd(4, args)
    } else if action == "list"@ || action == "status"@ {
        Ok(bare_cmd(5))
    } else if action == "tools"@ {
        let server = match get(args, "server"@) {
            Some(v) => crate::json::as_str(v),
            None => str_member(args, "name"@),
        };
        Ok(match server {
            Some(s) => (6, s, Seq::empty(), true, None),
            None => bare_cmd(6),
        })
    } else if action == "call"@ || action == "tool"@ {
        match any_arg_spec(args, seq!["server"@, "mcp"@, "mcp_server"@], "server"@ + "/"@ + "mcp"@ + "/"@ + "mcp_server"@) {
            Err(e) => Err(e),
            Ok(srv) => match any_arg_spec(args, seq!["name"@, "tool"@, "tool_name"@], "name"@ + "/"@ + "tool"@ + "/"@ + "tool_name"@) {
                Err(e) => Err(e),
                Ok(tool) => Ok((7, srv, tool, false, Some(match get(args, "arguments"@) {
                    Some(a) => a,
                    None => match get(args, "args"@) {
                        Some(a) => a,
                        None => JsonTree::Object(Seq::empty()),
                    },
                }))),
            },
        }
    } else {
        Err("unknown Mcp action: "@ + action)
    }
}

fn named_tool(kind: u8, args: &Json) -> (r: Result<McpCommand, String>)
    requires
        kind == 2 || kind == 3 || kind == 4,
    ensures
        parsed_view(r) == named_tool_cmd(kind, args@),
{
    let n = any_arg2(args, "name", "server")?;
    Ok(if kind == 2 {
        McpCommand::Start(n)
    } else if kind == 3 {
        McpCommand::Stop(n)
    } else {
        McpCommand::Remove(n)
    })
}

/// Read the arguments of a call of the `Mcp` tool.
pub fn tool_command(args: &Json) -> (r: Result<McpCommand, String>)
    ensures
        parsed_view(r) == tool_command_spec(args@),
{
    let raw = match crate::json::get_str(args, "action") {
        Some(a) => a,
        None => "list",
    };
    let lower = crate::text::to_lowercase(raw);
    let c = chars_of(lower.as_str());
    let a = c.as_slice();
    if chars_eq_str(a, "add") || chars_eq_str(a, "connect") {
        let n = any_arg2(args, "name", "server")?;
        let command = match crate::json::get_str(args, "command") {
            Some(v) => String::from_str(v),
            None => return Err(String::from_str("missing string arg: command")),
        };
        let auto = crate::json::bool_arg(args, "auto_start", true);
        Ok(McpCommand::Connect(n, command, auto))
    } else if chars_eq_str(a, "start") {
        named_tool(2, args)
    } else if chars_eq_str(a, "stop") || chars_eq_str(a, "disconnect") {
        named_tool(3, args)
    } else if chars_eq_str(a, "remove") || chars_eq_str(a, "rm") {
        named_tool(4, args)
    } else if chars_eq_str(a, "list") || chars_eq_str(a, "status") {
        Ok(McpCommand::List)
    } else if chars_eq_str(a, "tools") {
        let server = match args.get("server") {
            Some(v) => v.as_str(),
            None => crate::json::get_str(args, "name"),
        };
        Ok(McpCommand::Tools(match server {
            Some(s) => Some(String::from_str(s)),
            None => None,
        }))
    } else if chars_eq_str(a, "call") || chars_eq_str(a, "tool") {
        let srv = any_arg3(args, "server", "mcp", "mcp_server")?;
        let tool = any_arg3(args, "name", "tool", "tool_name")?;
        let arguments = match args.get("arguments") {
            Some(v) => v.copy(),
            None => match args.get("args") {
                Some(v) => v.copy(),
                None => {
                    let v: Vec<(String, Json)> = Vec::new();
                    assert(crate::json::members_of(v@) =~= Seq::empty());
                    Json::Object(v)
                },
            },
        };
        Ok(McpCommand::Call(srv, tool, arguments))
    } else {
        Err(prefixed_error("unknown Mcp action: ", a))
    }
}

// ---------------------------------------------------------------------------
// JSON-RPC messages
// ---------------------------------------------------------------------------

/// A JSON-RPC 2.0 request; without an id it is a notification.
pub open spec fn rpc_tree(id: Option<u64>, method: Seq<char>, params: JsonTree) -> JsonTree {
    match id {
        Some(n) => JsonTree::Object(seq![
            ("id"@, JsonTree::Number(Some(n), crate::text::decimal(n as nat))),
            ("jsonrpc"@, JsonTree::Str("2.0"@)),
            ("method"@, JsonTree::Str(method)),
            ("params"@, params),
        ]),
        None => JsonTree::Object(seq![
            ("jsonrpc"@, JsonTree::Str("2.0"@)),
            ("method"@, JsonTree::Str(method)),
            ("params"@, params),
        ]),
    }
}

/// Build a JSON-RPC request body.
pub fn build_http_rpc(id: Option<u64>, method: &str, params: Json) -> (r: Json)
    ensures
        r@ == rpc_tree(id, method@, params@),
{
    match id {
        Some(n) => {
            let d = crate::text::decimal_string(n);
            Json::Object(members4(
                "id", Json::Number(Some(n), string_of(d.as_slice())),
                "jsonrpc", json_str("2.0"),
                "method", json_str(method),
                "params", params,
            ))
        },
        None => Json::Object(members3("jsonrpc", json_str("2.0"), "method", json_str(method), "params", params)),
    }
}

/// The `result` of a response (`null` when it has none), or its `error`
/// written out as the failure.
pub open spec fn rpc_result_spec(response: JsonTree, method: Seq<char>) -> Result<JsonTree, Seq<char>> {
    match get(response, "error"@) {
        Some(e) => Err("MCP request '"@ + method + "' failed: "@ + json_compact(e)),
        None => Ok(match get(response, "result"@) {
            Some(r) => r,
            None => JsonTree::Null,
        }),
    }
}

/// Take the result out of a JSON-RPC response.
pub fn extract_rpc_result(response: &Json, method: &str) -> (r: Result<Json, String>)
    ensures
        match r {
            Ok(v) => rpc_result_spec(response@, method@) == Ok::<JsonTree, Seq<char>>(v@),
            Err(e) => rpc_result_spec(response@, method@) == Err::<JsonTree, Seq<char>>(e@),
        },
{
    if let Some(e) = response.get("error") {
        let mut m = chars_of("MCP request '");
        extend_str(&mut m, method);
        extend_str(&mut m, "' failed: ");
        let t = crate::json::json_text(e);
        extend_str(&mut m, t.as_str());
        return Err(string_of(m.as_slice()));
    }
    Ok(match response.get("result") {
        Some(v) => v.copy(),
        None => Json::Null,
    })
}

/// The numeric id of a response: a number, or a string of digits.
pub open spec fn response_id_spec(value: JsonTree) -> Option<u64> {
    match get(value, "id"@) {
        Some(JsonTree::Number(Some(n), _)) => Some(n),
        Some(JsonTree::Str(s)) => match crate::text::parse_unsigned_spec(s, u64::MAX as nat) {
            Some(n) => Some(n as u64),
            None => None,
        },
        _ => None,
    }
}

/// The id a response answers.
pub fn response_id(value: &Json) -> (r: Option<u64>)
    ensures
        r == response_id_spec(value@),
{
    match value.get("id") {
        Some(id) => match id.as_u64() {
            Some(n) => Some(n),
            None => match id.as_str() {
                Some(s) => {
                    let c = chars_of(s);
                    crate::text::parse_u64(c.as_slice())
                },
                None => None,
            },
        },
        None => None,
    }
}

/// The texts of a tool result's content items (an item without text is
/// written out as indented JSON), one per line; the whole result as
/// indented JSON when there are none.
pub open spec fn item_texts(items: Seq<JsonTree>) -> Seq<Seq<char>>
    decreases items.len(),
{
    if items.len() == 0 {
        Seq::empty()
    } else {
        item_texts(items.drop_last()).push(match str_member(items.last(), "text"@) {
            Some(t) => t,
            None => crate::json::json_pretty(items.last()),
        })
    }
}

pub open spec fn format_result_spec(result: JsonTree) -> Seq<char> {
    match get(result, "content"@) {
        Some(JsonTree::Array(items)) => if items.len() > 0 {
            crate::text::join(item_texts(items), "\n"@)
        } else {
            crate::json::json_pretty(result)
        },
        _ => crate::json::json_pretty(result),
    }
}

/// The text of a tool call's result.
pub fn format_result(result: &Json) -> (out: String)
    ensures
        out@ == format_result_spec(result@),
{
    let items = match result.get("content") {
        Some(c) => c.as_array(),
        None => None,
    };
    if let Some(items) = items {
        if items.len() > 0 {
            let mut parts: Vec<Vec<char>> = Vec::new();
            let ghost ts = trees_of_items(items@);
            let mut i: usize = 0;
            while i < items.len()
                invariant
                    i <= items@.len(),
                    ts == trees_of_items(items@),
                    ts.len() == items@.len(),
                    forall|j: int| 0 <= j < items@.len() ==> #[trigger] ts[j] == items@[j]@,
                    crate::text::views(parts@) == item_texts(ts.take(i as int)),
                decreases items@.len() - i,
            {
                assert(ts.take(i + 1).drop_last() =~= ts.take(i as int));
                let t = match crate::json::get_str(&items[i], "text") {
                    Some(t) => chars_of(t),
                    None => {
                        let p = crate::json::json_pretty_text(&items[i]);
                        chars_of(p.as_str())
                    },
                };
                let ghost before = parts@;
                parts.push(t);
                assert(crate::text::views(parts@) =~= crate::text::views(before).push(t@));
                i += 1;
            }
            assert(ts.take(i as int) =~= ts);
            let j = crate::text::join_parts(&parts, "\n");
            return string_of(j.as_slice());
        }
    }
    crate::json::json_pretty_text(result)
}

pub open spec fn trees_of_items(items: Seq<Json>) -> Seq<JsonTree> {
    crate::json::trees_of(items)
}

/// Where Biscuit Browser's MCP server listens, and its token.
pub struct BrowserEndpoint {
    pub url: String,
    pub token: Option<String>,
}

/// The endpoint a discovery file names: its `url`, when present and not
/// empty, and its `token`, when it is a string.
pub open spec fn discovery_spec(text: Seq<char>) -> Option<(Seq<char>, Option<Seq<char>>)> {
    match json_parse(text) {
        Err(_) => None,
        Ok(v) => match str_member(v, "url"@) {
            Some(u) => if u.len() == 0 { None } else { Some((u, str_member(v, "token"@))) },
            None => None,
        },
    }
}

/// Read the discovery file Biscuit Browser writes when its MCP server starts.
pub fn parse_browser_discovery(text: &str) -> (r: Option<BrowserEndpoint>)
    ensures
        match r {
            Some(e) => discovery_spec(text@) == Some((e.url@, match e.token { Some(t) => Some(t@), None => None })),
            None => discovery_spec(text@) is None,
        },
{
    let v = match parse_json(text) {
        Ok(v) => v,
        Err(_) => return None,
    };
    let url = match crate::json::get_str(&v, "url") {
        Some(u) => u,
        None => return None,
    };
    if url.unicode_len() == 0 {
        return None;
    }
    let token = match crate::json::get_str(&v, "token") {
        Some(t) => Some(String::from_str(t)),
        None => None,
    };
    Some(BrowserEndpoint { url: String::from_str(url), token })
}

/// The last twenty lines of a server's captured error output.
pub fn tail_lines(buffer: &[String]) -> (out: String)
    ensures
        out@ == crate::text::join(string_views(buffer@.skip(if buffer@.len() > 20 { buffer@.len() - 20 } else { 0 })), "\n"@),
{
    let start: usize = if buffer.len() > 20 { buffer.len() - 20 } else { 0 };
    let mut parts: Vec<Vec<char>> = Vec::new();
    let mut i: usize = start;
    let ghost tail = buffer@.skip(start as int);
    while i < buffer.len()
        invariant
            start <= i <= buffer@.len(),
            tail == buffer@.skip(start as int),
            crate::text::views(parts@) == string_views(tail.take(i - start)),
        decreases buffer@.len() - i,
    {
        assert(tail.take(i - start + 1).drop_last() =~= tail.take(i - start));
        assert(tail[i - start] == buffer@[i as int]);
        let ghost before = parts@;
        parts.push(chars_of(buffer[i].as_str()));
        assert(crate::text::views(parts@) =~= crate::text::views(before).push(buffer@[i as int]@));
        i += 1;
    }
    assert(tail.take(i - start) =~= tail);
    let j = crate::text::join_parts(&parts, "\n");
    string_of(j.as_slice())
}

/// The lines' texts.
pub open spec fn string_views(s: Seq<String>) -> Seq<Seq<char>>
    decreases s.len(),
{
    if s.len() == 0 {
        Seq::empty()
    } else {
        string_views(s.drop_last()).push(s.last()@)
    }
}

/// Keep only the last eighty lines of captured error output.
pub fn keep_recent_lines(buffer: &mut Vec<String>)
    ensures
        final(buffer)@ == old(buffer)@.skip(if old(buffer)@.len() > 80 { old(buffer)@.len() - 80 } else { 0 }),
{
    if buffer.len() > 80 {
        let drop = buffer.len() - 80;
        let mut kept: Vec<String> = Vec::new();
        let mut i: usize = drop;
        while i < buffer.len()
            invariant
                drop <= i <= buffer@.len(),
                kept@ == buffer@.subrange(drop as int, i as int),
            decreases buffer@.len() - i,
        {
            kept.push(buffer[i].clone());
            assert(kept@ =~= buffer@.subrange(drop as int, i + 1));
            i += 1;
        }
        assert(kept@ =~= buffer@.skip(drop as int));
        *buffer = kept;
    } else {
        assert(buffer@.skip(0) =~= buffer@);
    }
}

// ---------------------------------------------------------------------------
// Configured servers
// ---------------------------------------------------------------------------

/// A configured MCP server: a child process (`stdio`) or an HTTP endpoint.
pub struct ServerConfig {
    pub name: String,
    pub command: String,
    pub auto_start: bool,
    pub transport: String,
    pub url: Option<String>,
    pub token: Option<String>,
}

pub open spec fn opt_view(o: Option<String>) -> Option<Seq<char>> {
    match o {
        Some(s) => Some(s@),
        None => None,
    }
}

/// A server's configuration as data.
pub open spec fn config_view(c: ServerConfig) -> (Seq<char>, Seq<char>, bool, Seq<char>, Option<Seq<char>>, Option<Seq<char>>) {
    (c.name@, c.command@, c.auto_start, c.transport@, opt_view(c.url), opt_view(c.token))
}

/// The configuration `/mcp connect` records: a checked name and a trimmed,
/// non-empty command, run as a child process.
pub fn connect_config(name: &str, command: &str, auto_start: bool) -> (r: Result<ServerConfig, String>)
    ensures
        match clean_name_spec(name@) {
            Err(e) => r matches Err(x) && x@ == e,
            Ok(n) => if trim(command@).len() == 0 {
                r matches Err(x) && x@ == "MCP command cannot be empty"@
            } else {
                r matches Ok(c) && config_view(c) == (n, trim(command@), auto_start, "stdio"@, None::<Seq<char>>, None::<Seq<char>>)
            },
        },
{
    let n = clean_name(name)?;
    let c = crate::text::trim_str(command);
    if c.len() == 0 {
        return Err(String::from_str("MCP command cannot be empty"));
    }
    Ok(ServerConfig {
        name: n,
        command: string_of(c.as_slice()),
        auto_start,
        transport: String::from_str("stdio"),
        url: None,
        token: None,
    })
}

/// The configuration of an HTTP server at `url`.
pub fn http_config(name: &str, url: &str, token: Option<String>) -> (r: Result<ServerConfig, String>)
    ensures
        match clean_name_spec(name@) {
            Err(e) => r matches Err(x) && x@ == e,
            Ok(n) => r matches Ok(c) && config_view(c) == (n, url@, true, "http"@, Some(url@), opt_view(token)),
        },
{
    let n = clean_name(name)?;
    Ok(ServerConfig {
        name: n,
        command: String::from_str(url),
        auto_start: true,
        transport: String::from_str("http"),
        url: Some(String::from_str(url)),
        token,
    })
}

/// The URL an HTTP server is reached at: its `url`, or its command when that
/// starts with `http`.
pub fn http_url(config: &ServerConfig) -> (r: Result<String, String>)
    ensures
        match opt_view(config.url) {
            Some(u) => r matches Ok(x) && x@ == u,
            None => if "http"@.is_prefix_of(config.command@) {
                r matches Ok(x) && x@ == config.command@
            } else {
                r matches Err(x) && x@ == "HTTP MCP server '"@ + config.name@ + "' has no url"@
            },
        },
{
    if let Some(u) = &config.url {
        return Ok(u.clone());
    }
    let c = chars_of(config.command.as_str());
    if crate::text::starts_with_str(c.as_slice(), "http") {
        return Ok(config.command.clone());
    }
    let mut m = chars_of("HTTP MCP server '");
    extend_str(&mut m, config.name.as_str());
    extend_str(&mut m, "' has no url");
    Err(string_of(m.as_slice()))
}

fn copy_config(c: &ServerConfig) -> (r: ServerConfig)
    ensures
        config_view(r) == config_view(*c),
{
    ServerConfig {
        name: c.name.clone(),
        command: c.command.clone(),
        auto_start: c.auto_start,
        transport: c.transport.clone(),
        url: match &c.url {
            Some(u) => Some(u.clone()),
            None => None,
        },
        token: match &c.token {
            Some(t) => Some(t.clone()),
            None => None,
        },
    }
}

/// The configured servers by name, and the plugins the user installed.
pub struct McpRegistry {
    servers: Vec<(String, ServerConfig)>,
    installed: Vec<String>,
}

impl McpRegistry {
    #[verifier::type_invariant]
    spec fn wf(&self) -> bool {
        crate::observations::sorted_keys(crate::observations::keys_of(self.servers@))
    }

    /// The configured servers by name.
    pub closed spec fn servers(&self) -> Map<Seq<char>, ServerConfig> {
        crate::observations::files_map(self.servers@)
    }

    /// The configured names, in order.
    pub closed spec fn names(&self) -> Seq<Seq<char>> {
        crate::observations::keys_of(self.servers@)
    }

    /// The installed plugins, in the order they were installed.
    pub closed spec fn installed(&self) -> Seq<Seq<char>> {
        string_views(self.installed@)
    }

    /// An empty registry with the given installed plugins.
    pub fn new(installed: Vec<String>) -> (r: McpRegistry)
        ensures
            r.servers() == Map::<Seq<char>, ServerConfig>::empty(),
            r.names().len() == 0,
            r.installed() == string_views(installed@),
    {
        McpRegistry { servers: Vec::new(), installed }
    }

    /// Record `config` under its name, replacing an earlier one.
    pub fn put(&mut self, config: ServerConfig)
        ensures
            final(self).servers() == old(self).servers().insert(config.name@, config),
            final(self).names().to_set() == old(self).names().to_set().insert(config.name@),
            final(self).installed() == old(self).installed(),
    {
        proof {
            use_type_invariant(&*self);
        }
        let name = config.name.clone();
        let mut servers = Vec::new();
        std::mem::swap(&mut servers, &mut self.servers);
        crate::observations::insert_sorted(&mut servers, name, config);
        self.servers = servers;
    }

    /// The configuration of `name`, if it is configured.
    pub fn get(&self, name: &str) -> (r: Option<&ServerConfig>)
        ensures
            match r {
                Some(c) => self.servers().dom().contains(name@) && self.servers()[name@] == *c,
                None => !self.servers().dom().contains(name@),
            },
    {
        proof {
            use_type_invariant(self);
        }
        let c = chars_of(name);
        match crate::observations::find_path(&self.servers, c.as_slice()) {
            Some(i) => Some(&self.servers[i].1),
            None => None,
        }
    }

    /// Forget the server `name`; whether it was configured.
    pub fn remove(&mut self, name: &str) -> (r: bool)
        ensures
            r == old(self).servers().dom().contains(name@),
            final(self).servers() == old(self).servers().remove(name@),
            final(self).installed() == old(self).installed(),
    {
        proof {
            use_type_invariant(&*self);
        }
        let c = chars_of(name);
        match crate::observations::find_path(&self.servers, c.as_slice()) {
            Some(i) => {
                let ghost old_files = self.servers@;
                let mut servers = Vec::new();
                std::mem::swap(&mut servers, &mut self.servers);
                servers.remove(i);
                proof {
                    lemma_remove_sorted(old_files, servers@, i as int);
                }
                self.servers = servers;
                true
            },
            None => {
                assert(self.servers().remove(name@) =~= self.servers());
                false
            },
        }
    }

    /// Copies of the configurations, in name order (what is saved).
    pub fn configs(&self) -> (r: Vec<ServerConfig>)
        ensures
            r@.len() == self.names().len(),
            forall|i: int| 0 <= i < r@.len() ==> #[trigger] config_view(r@[i]) == config_view(self.servers()[self.names()[i]]),
    {
        proof {
            use_type_invariant(self);
        }
        let mut out: Vec<ServerConfig> = Vec::new();
        let mut i: usize = 0;
        while i < self.servers.len()
            invariant
                i <= self.servers@.len(),
                out@.len() == i,
                crate::observations::sorted_keys(crate::observations::keys_of(self.servers@)),
                forall|j: int| 0 <= j < i ==> #[trigger] config_view(out@[j]) == config_view(self.servers@[j].1),
            decreases self.servers@.len() - i,
        {
            out.push(copy_config(&self.servers[i].1));
            i += 1;
        }
        proof {
            assert forall|j: int| 0 <= j < out@.len() implies #[trigger] config_view(out@[j]) == config_view(self.servers()[self.names()[j]]) by {
                crate::observations::lemma_files_map_entry(self.servers@, j);
            }
        }
        out
    }

    /// Note that plugin `name` was installed; whether it was new.
    pub fn mark_installed(&mut self, name: &str) -> (r: bool)
        ensures
            r == !old(self).installed().contains(name@),
            final(self).installed() == if r { old(self).installed().push(name@) } else { old(self).installed() },
            final(self).servers() == old(self).servers(),
            final(self).names() == old(self).names(),
    {
        proof {
            use_type_invariant(&*self);
            lemma_string_views(self.installed@);
        }
        let k = self.installed_position(name);
        match k {
            Some(i) => {
                assert(self.installed()[i as int] == name@);
                assert(self.installed().contains(name@));
                false
            },
            None => {
                let mut v = Vec::new();
                std::mem::swap(&mut v, &mut self.installed);
                let ghost before = v@;
                let item = String::from_str(name);
                v.push(item);
                proof {
                    lemma_string_views_push_value(before, item);
                }
                self.installed = v;
                true
            },
        }
    }

    /// Forget that plugin `name` was installed; whether it was.
    pub fn unmark_installed(&mut self, name: &str) -> (r: bool)
        ensures
            r == old(self).installed().contains(name@),
            !r ==> final(self).installed() == old(self).installed(),
            r ==> exists|i: int| 0 <= i < old(self).installed().len() && old(self).installed()[i] == name@
                && (forall|j: int| 0 <= j < i ==> old(self).installed()[j] != name@)
                && final(self).installed() == old(self).installed().remove(i),
            final(self).servers() == old(self).servers(),
            final(self).names() == old(self).names(),
    {
        proof {
            use_type_invariant(&*self);
            lemma_string_views(self.installed@);
        }
        match self.installed_position(name) {
            Some(i) => {
                assert(self.installed()[i as int] == name@);
                let mut v = Vec::new();
                std::mem::swap(&mut v, &mut self.installed);
                let ghost before = v@;
                v.remove(i);
                proof {
                    lemma_string_views_remove(before, i as int);
                }
                self.installed = v;
                true
            },
            None => false,
        }
    }

    fn installed_position(&self, name: &str) -> (r: Option<usize>)
        ensures
            match r {
                Some(i) => i < self.installed@.len() && self.installed()[i as int] == name@
                    && forall|j: int| 0 <= j < i ==> self.installed()[j] != name@,
                None => !self.installed().contains(name@),
            },
    {
        proof {
            lemma_string_views(self.installed@);
        }
        let c = chars_of(name);
        let mut i: usize = 0;
        while i < self.installed.len()
            invariant
                i <= self.installed@.len(),
                c@ == name@,
                string_views(self.installed@).len() == self.installed@.len(),
                forall|j: int| 0 <= j < self.installed@.len() ==> #[trigger] string_views(self.installed@)[j] == self.installed@[j]@,
                forall|j: int| 0 <= j < i ==> self.installed()[j] != name@,
            decreases self.installed@.len() - i,
        {
            let x = chars_of(self.installed[i].as_str());
            if crate::text::chars_eq(x.as_slice(), c.as_slice()) {
                return Some(i);
            }
            i += 1;
        }
        None
    }

    /// The installed plugins as saved: sorted, each once.
    pub fn saved_plugins(&self) -> (r: Vec<String>)
        ensures
            crate::observations::sorted_keys(string_views(r@)),
            string_views(r@).to_set() == self.installed().to_set(),
    {
        let mut keyed: Vec<(String, ())> = Vec::new();
        let mut i: usize = 0;
        proof {
            lemma_string_views(self.installed@);
        }
        while i < self.installed.len()
            invariant
                i <= self.installed@.len(),
                crate::observations::sorted_keys(crate::observations::keys_of(keyed@)),
                crate::observations::keys_of(keyed@).to_set() == string_views(self.installed@.take(i as int)).to_set(),
            decreases self.installed@.len() - i,
        {
            proof {
                lemma_string_views_push(self.installed@.take(i as int), self.installed@[i as int]@);
                assert(self.installed@.take(i + 1) =~= self.installed@.take(i as int).push(self.installed@[i as int]));
                lemma_string_views_push_value(self.installed@.take(i as int), self.installed@[i as int]);
            }
            let ghost k0 = crate::observations::keys_of(keyed@);
            let ghost sv = string_views(self.installed@.take(i as int));
            let x = self.installed[i].clone();
            crate::observations::insert_sorted(&mut keyed, x, ());
            proof {
                let sv1 = string_views(self.installed@.take(i + 1));
                assert(sv1 == sv.push(x@));
                assert forall|y: Seq<char>| #[trigger] sv1.to_set().contains(y) <==> sv.to_set().insert(x@).contains(y) by {
                    if sv1.contains(y) {
                        let j = choose|j: int| 0 <= j < sv1.len() && sv1[j] == y;
                        if j < sv.len() {
                            assert(sv[j] == y);
                        }
                    }
                    if sv.contains(y) {
                        let j = choose|j: int| 0 <= j < sv.len() && sv[j] == y;
                        assert(sv1[j] == y);
                    }
                    if y == x@ {
                        assert(sv1[sv.len() as int] == y);
                    }
                }
                assert(sv1.to_set() =~= sv.to_set().insert(x@));
            }
            i += 1;
        }
        assert(self.installed@.take(i as int) =~= self.installed@);
        let mut out: Vec<String> = Vec::new();
        let mut j: usize = 0;
        while j < keyed.len()
            invariant
                j <= keyed@.len(),
                string_views(out@) == crate::observations::keys_of(keyed@).take(j as int),
            decreases keyed@.len() - j,
        {
            let ghost before = out@;
            out.push(keyed[j].0.clone());
            proof {
                lemma_string_views_push_value(before, keyed@[j as int].0);
                assert(crate::observations::keys_of(keyed@).take(j + 1) =~= crate::observations::keys_of(keyed@).take(j as int).push(keyed@[j as int].0@));
            }
            j += 1;
        }
        assert(crate::observations::keys_of(keyed@).take(j as int) =~= crate::observations::keys_of(keyed@));
        out
    }
}

proof fn lemma_remove_sorted<V>(old_files: Seq<(String, V)>, files: Seq<(String, V)>, i: int)
    requires
        0 <= i < old_files.len(),
        files == old_files.remove(i),
        crate::observations::sorted_keys(crate::observations::keys_of(old_files)),
    ensures
        crate::observations::sorted_keys(crate::observations::keys_of(files)),
        crate::observations::files_map(files) == crate::observations::files_map(old_files).remove(old_files[i].0@),
{
    let ko = crate::observations::keys_of(old_files);
    let kn = crate::observations::keys_of(files);
    assert(kn =~= ko.remove(i));
    let p = old_files[i].0@;
    let m = crate::observations::files_map(old_files).remove(p);
    assert forall|x: Seq<char>| #[trigger] crate::observations::files_map(files).dom().contains(x) <==> m.dom().contains(x) by {
        crate::observations::lemma_files_map_contains(files, x);
        crate::observations::lemma_files_map_contains(old_files, x);
        if kn.contains(x) {
            let j = choose|j: int| 0 <= j < kn.len() && kn[j] == x;
            if j < i {
                assert(ko[j] == x);
                assert(crate::observations::path_lt(ko[j], ko[i]));
                crate::observations::lemma_path_lt_irreflexive(x);
            } else {
                assert(ko[j + 1] == x);
                assert(crate::observations::path_lt(ko[i], ko[j + 1]));
                crate::observations::lemma_path_lt_irreflexive(x);
            }
        }
        if ko.contains(x) && x != p {
            let j = choose|j: int| 0 <= j < ko.len() && ko[j] == x;
            if j < i {
                assert(kn[j] == x);
            } else {
                assert(j != i);
                assert(kn[j - 1] == x);
            }
        }
    }
    assert forall|x: Seq<char>| #[trigger] crate::observations::files_map(files).dom().contains(x) implies crate::observations::files_map(files)[x] == m[x] by {
        crate::observations::lemma_files_map_contains(files, x);
        let j = choose|j: int| 0 <= j < kn.len() && kn[j] == x;
        crate::observations::lemma_files_map_entry(files, j);
        if j < i {
            crate::observations::lemma_files_map_entry(old_files, j);
        } else {
            crate::observations::lemma_files_map_entry(old_files, j + 1);
        }
    }
    assert(crate::observations::files_map(files) =~= m);
}

pub proof fn lemma_string_views(s: Seq<String>)
    ensures
        string_views(s).len() == s.len(),
        forall|i: int| 0 <= i < s.len() ==> #[trigger] string_views(s)[i] == s[i]@,
    decreases s.len(),
{
    if s.len() > 0 {
        lemma_string_views(s.drop_last());
    }
}

proof fn lemma_string_views_push(s: Seq<String>, x: Seq<char>)
    ensures
        string_views(s).push(x).len() == s.len() + 1,
{
    lemma_string_views(s);
}

proof fn lemma_string_views_push_value(s: Seq<String>, x: String)
    ensures
        string_views(s.push(x)) == string_views(s).push(x@),
{
    assert(s.push(x).drop_last() =~= s);
}

proof fn lemma_string_views_remove(s: Seq<String>, i: int)
    requires
        0 <= i < s.len(),
    ensures
        string_views(s.remove(i)) == string_views(s).remove(i),
{
    lemma_string_views(s);
    lemma_string_views(s.remove(i));
    assert(string_views(s.remove(i)) =~= string_views(s).remove(i));
}

// ---------------------------------------------------------------------------
// Listings
// ---------------------------------------------------------------------------

/// A running server's name and the names of the tools it offers.
pub open spec fn running_view(r: Seq<(String, Vec<String>)>) -> Seq<(Seq<char>, Seq<Seq<char>>)>
    decreases r.len(),
{
    if r.len() == 0 {
        Seq::empty()
    } else {
        running_view(r.drop_last()).push((r.last().0@, string_views(r.last().1@)))
    }
}

/// The tools of the first running server named `name`, if one is.
pub open spec fn running_tools(r: Seq<(Seq<char>, Seq<Seq<char>>)>, name: Seq<char>) -> Option<Seq<Seq<char>>>
    decreases r.len(),
{
    if r.len() == 0 {
        None
    } else if r[0].0 == name {
        Some(r[0].1)
    } else {
        running_tools(r.drop_first(), name)
    }
}

/// One line of the server listing.
pub open spec fn server_line(name: Seq<char>, c: ServerConfig, running: Seq<(Seq<char>, Seq<Seq<char>>)>, include_tools: bool) -> Seq<char> {
    let status = if running_tools(running, name) is Some { "running"@ } else { "stopped"@ };
    let detail = if c.transport@ == "http"@ {
        "http: "@ + match opt_view(c.url) {
            Some(u) => u,
            None => c.command@,
        }
    } else {
        "command: "@ + c.command@
    };
    let tools = match running_tools(running, name) {
        Some(ts) => if include_tools && ts.len() > 0 { "; tools: "@ + crate::text::join(ts, ", "@) } else { Seq::empty() },
        None => Seq::empty(),
    };
    "- "@ + name + ": "@ + status + "; "@ + detail + tools
}

pub open spec fn server_lines(names: Seq<Seq<char>>, m: Map<Seq<char>, ServerConfig>, running: Seq<(Seq<char>, Seq<Seq<char>>)>, include_tools: bool) -> Seq<Seq<char>>
    decreases names.len(),
{
    if names.len() == 0 {
        Seq::empty()
    } else {
        server_lines(names.drop_last(), m, running, include_tools).push(server_line(names.last(), m[names.last()], running, include_tools))
    }
}

fn running_find(running: &[(String, Vec<String>)], name: &[char]) -> (r: Option<usize>)
    ensures
        match r {
            Some(i) => i < running@.len() && running_tools(running_view(running@), name@) == Some(string_views(running@[i as int].1@)),
            None => running_tools(running_view(running@), name@) is None,
        },
{
    proof {
        lemma_running_view(running@);
    }
    let ghost rv = running_view(running@);
    let mut i: usize = 0;
    assert(rv.skip(0) =~= rv);
    while i < running.len()
        invariant
            i <= running@.len(),
            rv == running_view(running@),
            rv.len() == running@.len(),
            forall|j: int| 0 <= j < running@.len() ==> #[trigger] rv[j] == (running@[j].0@, string_views(running@[j].1@)),
            running_tools(rv, name@) == running_tools(rv.skip(i as int), name@),
        decreases running@.len() - i,
    {
        assert(rv.skip(i as int)[0] == rv[i as int]);
        assert(rv.skip(i as int).drop_first() =~= rv.skip(i + 1));
        let x = chars_of(running[i].0.as_str());
        if crate::text::chars_eq(x.as_slice(), name) {
            return Some(i);
        }
        i += 1;
    }
    None
}

proof fn lemma_running_view(r: Seq<(String, Vec<String>)>)
    ensures
        running_view(r).len() == r.len(),
        forall|j: int| 0 <= j < r.len() ==> #[trigger] running_view(r)[j] == (r[j].0@, string_views(r[j].1@)),
    decreases r.len(),
{
    if r.len() > 0 {
        lemma_running_view(r.drop_last());
    }
}

fn join_strings(items: &Vec<String>, sep: &str) -> (out: Vec<char>)
    ensures
        out@ == crate::text::join(string_views(items@), sep@),
{
    let mut parts: Vec<Vec<char>> = Vec::new();
    let mut i: usize = 0;
    while i < items.len()
        invariant
            i <= items@.len(),
            crate::text::views(parts@) == string_views(items@.take(i as int)),
        decreases items@.len() - i,
    {
        let ghost before = parts@;
        parts.push(chars_of(items[i].as_str()));
        assert(items@.take(i + 1).drop_last() =~= items@.take(i as int));
        assert(crate::text::views(parts@) =~= crate::text::views(before).push(items@[i as int]@));
        i += 1;
    }
    assert(items@.take(i as int) =~= items@);
    crate::text::join_parts(&parts, sep)
}

fn server_line_exec(name: &String, c: &ServerConfig, running: &[(String, Vec<String>)], include_tools: bool) -> (out: Vec<char>)
    ensures
        out@ == server_line(name@, *c, running_view(running@), include_tools),
{
    let nc = chars_of(name.as_str());
    let found = running_find(running, nc.as_slice());
    let mut v = chars_of("- ");
    extend_str(&mut v, name.as_str());
    extend_str(&mut v, ": ");
    match found {
        Some(_) => extend_str(&mut v, "running"),
        None => extend_str(&mut v, "stopped"),
    }
    extend_str(&mut v, "; ");
    let t = chars_of(c.transport.as_str());
    if chars_eq_str(t.as_slice(), "http") {
        extend_str(&mut v, "http: ");
        match &c.url {
            Some(u) => extend_str(&mut v, u.as_str()),
            None => extend_str(&mut v, c.command.as_str()),
        }
    } else {
        extend_str(&mut v, "command: ");
        extend_str(&mut v, c.command.as_str());
    }
    if let Some(i) = found {
        if include_tools && running[i].1.len() > 0 {
            proof {
                lemma_string_views(running@[i as int].1@);
            }
            extend_str(&mut v, "; tools: ");
            let j = join_strings(&running[i].1, ", ");
            extend_chars(&mut v, j.as_slice());
        } else {
            proof {
                lemma_string_views(running@[i as int].1@);
            }
        }
    }
    v
}

impl McpRegistry {
    /// The configured servers, one line each in name order, with whether each
    /// runs (per `running`) and how it is reached, and its tools when asked.
    pub fn render_servers(&self, include_tools: bool, running: &[(String, Vec<String>)]) -> (out: String)
        ensures
            out@ == if self.names().len() == 0 {
                "none"@
            } else {
                crate::text::join(server_lines(self.names(), self.servers(), running_view(running@), include_tools), "\n"@)
            },
    {
        proof {
            use_type_invariant(self);
        }
        if self.servers.len() == 0 {
            return String::from_str("none");
        }
        let ghost names = crate::observations::keys_of(self.servers@);
        let mut parts: Vec<Vec<char>> = Vec::new();
        let mut i: usize = 0;
        while i < self.servers.len()
            invariant
                i <= self.servers@.len(),
                names == crate::observations::keys_of(self.servers@),
                crate::observations::sorted_keys(names),
                crate::text::views(parts@) == server_lines(names.take(i as int), self.servers(), running_view(running@), include_tools),
            decreases self.servers@.len() - i,
        {
            assert(names.take(i + 1).drop_last() =~= names.take(i as int));
            assert(names[i as int] == self.servers@[i as int].0@);
            proof {
                crate::observations::lemma_files_map_entry(self.servers@, i as int);
            }
            let line = server_line_exec(&self.servers[i].0, &self.servers[i].1, running, include_tools);
            let ghost before = parts@;
            parts.push(line);
            assert(crate::text::views(parts@) =~= crate::text::views(before).push(line@));
            i += 1;
        }
        assert(names.take(i as int) =~= names);
        let j = crate::text::join_parts(&parts, "\n");
        string_of(j.as_slice())
    }

    /// The plugin listing: each built-in plugin with its state, then any
    /// installed name that is not a built-in.
    pub fn render_plugins(&self, running: &[String]) -> (out: String)
        ensures
            out@ == crate::text::join(
                seq!["Plugins:"@] + builtin_plugin_lines(self.installed(), string_views(running@))
                    + unknown_plugin_lines(self.installed(), string_views(running@)),
                "\n"@,
            ),
    {
        proof {
            lemma_string_views(running@);
            lemma_string_views(self.installed@);
        }
        let mut parts: Vec<Vec<char>> = Vec::new();
        parts.push(chars_of("Plugins:"));
        let reg = plugin_registry();
        let mut i: usize = 0;
        while i < 2
            invariant
                i <= 2,
                reg@.len() == 2,
                reg@[0].name@ == "biscuit-browser"@,
                reg@[0].transport@ == "http"@,
                reg@[1].name@ == "biscuit-gui"@,
                reg@[1].transport@ == "stdio"@,
                reg@[0].description@ == builtin_description(0),
                reg@[1].description@ == builtin_description(1),
                crate::text::views(parts@) == seq!["Plugins:"@] + builtin_plugin_lines(self.installed(), string_views(running@)).take(i as int),
            decreases 2 - i,
        {
            let p = &reg[i];
            let mut v = chars_of("- ");
            extend_str(&mut v, p.name);
            extend_str(&mut v, " [");
            extend_str(&mut v, p.transport);
            extend_str(&mut v, "]: ");
            extend_str(&mut v, p.description);
            extend_str(&mut v, " (");
            let running_now = contains_string(running, p.name);
            let installed_now = contains_string(&self.installed, p.name);
            if running_now {
                extend_str(&mut v, "running");
            } else if installed_now {
                extend_str(&mut v, "installed (stopped)");
            } else {
                extend_str(&mut v, "available");
            }
            extend_str(&mut v, ")");
            let ghost before = parts@;
            assert(v@ =~= builtin_plugin_lines(self.installed(), string_views(running@))[i as int]);
            parts.push(v);
            proof {
                let all = builtin_plugin_lines(self.installed(), string_views(running@));
                assert(all.take(i + 1) =~= all.take(i as int).push(all[i as int]));
                assert(crate::text::views(parts@) =~= crate::text::views(before).push(v@));
            }
            i += 1;
        }
        assert(builtin_plugin_lines(self.installed(), string_views(running@)).take(2) =~= builtin_plugin_lines(self.installed(), string_views(running@)));
        let ghost head = crate::text::views(parts@);
        let mut k: usize = 0;
        while k < self.installed.len()
            invariant
                k <= self.installed@.len(),
                string_views(self.installed@).len() == self.installed@.len(),
                forall|j: int| 0 <= j < self.installed@.len() ==> #[trigger] string_views(self.installed@)[j] == self.installed@[j]@,
                string_views(running@).len() == running@.len(),
                forall|j: int| 0 <= j < running@.len() ==> #[trigger] string_views(running@)[j] == running@[j]@,
                crate::text::views(parts@) == head + unknown_plugin_lines(self.installed().take(k as int), string_views(running@)),
            decreases self.installed@.len() - k,
        {
            let ghost inst = self.installed();
            assert(inst.take(k + 1).drop_last() =~= inst.take(k as int));
            assert(inst.take(k + 1).last() == self.installed@[k as int]@);
            let name = &self.installed[k];
            let nc = chars_of(name.as_str());
            let builtin = chars_eq_str(nc.as_slice(), "biscuit-browser") || chars_eq_str(nc.as_slice(), "biscuit-gui");
            let ghost before = parts@;
            if !builtin {
                let mut v = chars_of("- ");
                extend_str(&mut v, name.as_str());
                extend_str(&mut v, " (unknown plugin) (");
                if contains_string(running, name.as_str()) {
                    extend_str(&mut v, "running");
                } else {
                    extend_str(&mut v, "installed (stopped)");
                }
                extend_str(&mut v, ")");
                parts.push(v);
                assert(crate::text::views(parts@) =~= crate::text::views(before).push(v@));
            }
            k += 1;
        }
        assert(self.installed().take(k as int) =~= self.installed());
        let j = crate::text::join_parts(&parts, "\n");
        string_of(j.as_slice())
    }
}

pub open spec fn builtin_description(i: int) -> Seq<char> {
    if i == 0 {
        "Drive Biscuit Browser (open/click/type/read pages) over its local MCP server."@
    } else {
        "Local GUI automation tools via the biscuit-gui-mcp stdio server."@
    }
}

pub open spec fn plugin_state(name: Seq<char>, installed: Seq<Seq<char>>, running: Seq<Seq<char>>) -> Seq<char> {
    if running.contains(name) {
        "running"@
    } else if installed.contains(name) {
        "installed (stopped)"@
    } else {
        "available"@
    }
}

/// The lines of the built-in plugins.
pub open spec fn builtin_plugin_lines(installed: Seq<Seq<char>>, running: Seq<Seq<char>>) -> Seq<Seq<char>> {
    seq![
        "- "@ + "biscuit-browser"@ + " ["@ + "http"@ + "]: "@ + builtin_description(0) + " ("@
            + plugin_state("biscuit-browser"@, installed, running) + ")"@,
        "- "@ + "biscuit-gui"@ + " ["@ + "stdio"@ + "]: "@ + builtin_description(1) + " ("@
            + plugin_state("biscuit-gui"@, installed, running) + ")"@,
    ]
}

/// The lines of installed plugins that are not built in.
pub open spec fn unknown_plugin_lines(installed: Seq<Seq<char>>, running: Seq<Seq<char>>) -> Seq<Seq<char>>
    decreases installed.len(),
{
    if installed.len() == 0 {
        Seq::empty()
    } else {
        let n = installed.last();
        unknown_plugin_lines(installed.drop_last(), running) + if n == "biscuit-browser"@ || n == "biscuit-gui"@ {
            Seq::empty()
        } else {
            seq!["- "@ + n + " (unknown plugin) ("@ + (if running.contains(n) { "running"@ } else { "installed (stopped)"@ }) + ")"@]
        }
    }
}

fn contains_string(items: &[String], name: &str) -> (r: bool)
    ensures
        r == string_views(items@).contains(name@),
{
    proof {
        lemma_string_views(items@);
    }
    let c = chars_of(name);
    let mut i: usize = 0;
    while i < items.len()
        invariant
            i <= items@.len(),
            c@ == name@,
            string_views(items@).len() == items@.len(),
            forall|j: int| 0 <= j < items@.len() ==> #[trigger] string_views(items@)[j] == items@[j]@,
            forall|j: int| 0 <= j < i ==> string_views(items@)[j] != name@,
        decreases items@.len() - i,
    {
        let x = chars_of(items[i].as_str());
        if crate::text::chars_eq(x.as_slice(), c.as_slice()) {
            assert(string_views(items@)[i as int] == name@);
            return true;
        }
        i += 1;
    }
    false
}

/// Whitespace runs squeezed to one space, cut to `max` characters with
/// `...` appended when longer.
pub open spec fn compact_line(text: Seq<char>, max: nat) -> Seq<char> {
    crate::text::truncate_dots(crate::text::squeeze_ws(text), max)
}

pub open spec fn tool_lines(tools: Seq<(Seq<char>, Seq<char>)>) -> Seq<char>
    decreases tools.len(),
{
    if tools.len() == 0 {
        Seq::empty()
    } else {
        let (name, description) = tools.last();
        tool_lines(tools.drop_last()) + "\n- "@ + name + if trim(description).len() > 0 {
            ": "@ + compact_line(description, 160)
        } else {
            Seq::empty()
        }
    }
}

pub open spec fn tool_pairs(tools: Seq<(String, String)>) -> Seq<(Seq<char>, Seq<char>)>
    decreases tools.len(),
{
    if tools.len() == 0 {
        Seq::empty()
    } else {
        tool_pairs(tools.drop_last()).push((tools.last().0@, tools.last().1@))
    }
}

/// The tools a server offers, `(name, description)`, one per line.
pub fn format_tools(server: &str, tools: &[(String, String)]) -> (out: String)
    ensures
        out@ == if tools@.len() == 0 {
            server@ + ": no tools discovered"@
        } else {
            server@ + " tools:"@ + tool_lines(tool_pairs(tools@))
        },
{
    let mut v = chars_of(server);
    if tools.len() == 0 {
        extend_str(&mut v, ": no tools discovered");
        return string_of(v.as_slice());
    }
    extend_str(&mut v, " tools:");
    let ghost head = v@;
    let mut i: usize = 0;
    while i < tools.len()
        invariant
            i <= tools@.len(),
            v@ == head + tool_lines(tool_pairs(tools@.take(i as int))),
        decreases tools@.len() - i,
    {
        assert(tools@.take(i + 1).drop_last() =~= tools@.take(i as int));
        let ghost before = v@;
        extend_str(&mut v, "\n- ");
        extend_str(&mut v, tools[i].0.as_str());
        let d = chars_of(tools[i].1.as_str());
        let t = trim_chars(d.as_slice());
        if t.len() > 0 {
            extend_str(&mut v, ": ");
            let sq = crate::text::squeeze_whitespace(d.as_slice());
            let cut = crate::text::truncate_with_dots(sq.as_slice(), 160);
            extend_chars(&mut v, cut.as_slice());
        }
        proof {
            let tp = tool_pairs(tools@.take(i + 1));
            assert(tools@.take(i + 1).last() == tools@[i as int]);
            assert(tp == tool_pairs(tools@.take(i as int)).push((tools@[i as int].0@, tools@[i as int].1@)));
            assert(tp.drop_last() =~= tool_pairs(tools@.take(i as int)));
            assert(tp.last() == (tools@[i as int].0@, tools@[i as int].1@));
        }
        assert(v@ =~= head + tool_lines(tool_pairs(tools@.take(i + 1))));
        i += 1;
    }
    assert(tools@.take(i as int) =~= tools@);
    string_of(v.as_slice())
}

/// The `/mcp` help, ending with the configured servers.
pub fn help(servers: &str) -> (out: String)
    ensures
        out@ == mcp_help_text()@ + servers@,
{
    let mut v = chars_of(mcp_help_text());
    extend_str(&mut v, servers);
    string_of(v.as_slice())
}

pub open spec fn mcp_help_spec() -> &'static str {
    "MCP commands:\n  /mcp                         show this help\n  /mcp list                    list configured MCP servers\n  /mcp connect <name> -- <cmd> add and start a stdio MCP server\n  /mcp start <name>            start a configured server\n  /mcp stop <name>             stop a running server\n  /mcp remove <name>           stop and remove a configured server\n  /mcp tools [name]            list MCP tools\n  /mcp call <server> <tool> {} call an MCP tool with JSON arguments\n\nPlugin commands:\n  /plugins                     list built-in + installed plugins\n  /install <name>              install and start a plugin\n  /uninstall <name>            stop and remove a plugin\n  /plugin start <name>         start an installed plugin\n  /plugin stop <name>          stop a running plugin\n\nConfigured servers:\n"
}

/// The fixed part of the `/mcp` help.
#[verifier::when_used_as_spec(mcp_help_spec)]
pub fn mcp_help_text() -> (s: &'static str)
    ensures
        s == mcp_help_spec(),
{
    "MCP commands:\n  /mcp                         show this help\n  /mcp list                    list configured MCP servers\n  /mcp connect <name> -- <cmd> add and start a stdio MCP server\n  /mcp start <name>            start a configured server\n  /mcp stop <name>             stop a running server\n  /mcp remove <name>           stop and remove a configured server\n  /mcp tools [name]            list MCP tools\n  /mcp call <server> <tool> {} call an MCP tool with JSON arguments\n\nPlugin commands:\n  /plugins                     list built-in + installed plugins\n  /install <name>              install and start a plugin\n  /uninstall <name>            stop and remove a plugin\n  /plugin start <name>         start an installed plugin\n  /plugin stop <name>          stop a running plugin\n\nConfigured servers:\n"
}

pub open spec fn mcp_prompt_head() -> Seq<char> {
    "<mcp_system>\nMCP servers can be connected and used with the Mcp tool. If the user asks you to connect an MCP server and provides enough package/command detail, do it for them.\nMcp tool examples:\n<tool_call>{\"tool\":\"Mcp\",\"args\":{\"action\":\"connect\",\"name\":\"filesystem\",\"command\":\"npx -y @modelcontextprotocol/server-filesystem .\"}}</tool_call>\n<tool_call>{\"tool\":\"Mcp\",\"args\":{\"action\":\"tools\",\"server\":\"filesystem\"}}</tool_call>\n<tool_call>{\"tool\":\"Mcp\",\"args\":{\"action\":\"call\",\"server\":\"filesystem\",\"name\":\"read_file\",\"arguments\":{\"path\":\"README.md\"}}}</tool_call>\n\nCurrent MCP servers:\n"@
}

/// The system-prompt section that tells the agent about MCP, with the
/// configured servers.
pub fn mcp_system_prompt(servers: &str) -> (out: String)
    ensures
        out@ == mcp_prompt_head() + servers@ + "\n</mcp_system>"@,
{
    let mut v = chars_of("<mcp_system>\nMCP servers can be connected and used with the Mcp tool. If the user asks you to connect an MCP server and provides enough package/command detail, do it for them.\nMcp tool examples:\n<tool_call>{\"tool\":\"Mcp\",\"args\":{\"action\":\"connect\",\"name\":\"filesystem\",\"command\":\"npx -y @modelcontextprotocol/server-filesystem .\"}}</tool_call>\n<tool_call>{\"tool\":\"Mcp\",\"args\":{\"action\":\"tools\",\"server\":\"filesystem\"}}</tool_call>\n<tool_call>{\"tool\":\"Mcp\",\"args\":{\"action\":\"call\",\"server\":\"filesystem\",\"name\":\"read_file\",\"arguments\":{\"path\":\"README.md\"}}}</tool_call>\n\nCurrent MCP servers:\n");
    extend_str(&mut v, servers);
    extend_str(&mut v, "\n</mcp_system>");
    string_of(v.as_slice())
}

} // verus!

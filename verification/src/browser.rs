//! The `/browser` command: launching Biscuit Browser from the workspace and
//! reporting on it. Starting and stopping the process is the platform
//! layer's; this module decides what is asked and what is said.
use vstd::prelude::*;
use crate::mcp::{command_rest, command_rest_spec};
use crate::text::{chars_eq_str, chars_of, extend_chars, extend_str, string_of, trim, trim_str};

verus! {

broadcast use vstd::string::group_string_axioms;

/// What `/browser` asks for.
#[derive(Clone, Copy, Debug, PartialEq, Eq, Structural)]
pub enum BrowserAction {
    Status,
    Launch,
    Stop,
    Help,
    Unknown,
}

/// The action a `/browser` line asks for, and for an unknown one the word
/// given.
pub open spec fn browser_action_spec(arg: Seq<char>) -> BrowserAction {
    if arg.len() == 0 || arg == "status"@ {
        BrowserAction::Status
    } else if arg == "use"@ || arg == "open"@ || arg == "launch"@ || arg == "start"@ {
        BrowserAction::Launch
    } else if arg == "stop"@ || arg == "quit"@ || arg == "close"@ {
        BrowserAction::Stop
    } else if arg == "help"@ {
        BrowserAction::Help
    } else {
        BrowserAction::Unknown
    }
}

/// The `/browser` command `input` is, if it is one (the word after it,
/// trimmed, decides the action).
pub fn browser_command(input: &str) -> (r: Option<(BrowserAction, String)>)
    ensures
        match r {
            Some((a, w)) => command_rest_spec(input@, "/browser"@) matches Some(rest)
                && w@ == trim(rest) && a == browser_action_spec(trim(rest)),
            None => command_rest_spec(input@, "/browser"@) is None,
        },
{
    let rest = command_rest(input, "/browser")?;
    let t = trim_str(rest);
    let x = t.as_slice();
    let a = if x.len() == 0 || chars_eq_str(x, "status") {
        BrowserAction::Status
    } else if chars_eq_str(x, "use") || chars_eq_str(x, "open") || chars_eq_str(x, "launch") || chars_eq_str(x, "start") {
        BrowserAction::Launch
    } else if chars_eq_str(x, "stop") || chars_eq_str(x, "quit") || chars_eq_str(x, "close") {
        BrowserAction::Stop
    } else if chars_eq_str(x, "help") {
        BrowserAction::Help
    } else {
        BrowserAction::Unknown
    };
    Some((a, string_of(x)))
}

pub open spec fn browser_help_spec() -> Seq<char> {
    "Biscuit Browser — native launcher\nusage: /browser [use|status|stop]\n  /browser use     install (if needed) and launch the browser\n  /browser status  show whether it is present / installed / running\n  /browser stop    stop the browser launched from this session"@
}

/// The `/browser` help.
pub fn browser_help() -> (out: String)
    ensures
        out@ == browser_help_spec(),
{
    String::from_str("Biscuit Browser — native launcher\nusage: /browser [use|status|stop]\n  /browser use     install (if needed) and launch the browser\n  /browser status  show whether it is present / installed / running\n  /browser stop    stop the browser launched from this session")
}

/// The answer to an unknown `/browser` word.
pub fn unknown_browser_command(word: &str) -> (out: String)
    ensures
        out@ == "unknown /browser command: "@ + word@ + "\n\n"@ + browser_help_spec(),
{
    let mut v = chars_of("unknown /browser command: ");
    extend_str(&mut v, word);
    extend_str(&mut v, "\n\n");
    let h = browser_help();
    extend_str(&mut v, h.as_str());
    string_of(v.as_slice())
}

/// The status line for the browser in directory `dir`: whether it is there,
/// running (launched from this session) and installed.
pub fn browser_status(dir: &str, present: bool, running: bool, installed: bool) -> (out: String)
    ensures
        out@ == if !present {
            "Biscuit Browser is not present.\nExpected at: "@ + dir@ + "\n(Run this from the Biscuits repo root.)"@
        } else {
            "Biscuit Browser: "@ + (if running { "running (this session)"@ } else { "not running"@ }) + "; "@
                + (if installed { "dependencies installed"@ } else {
                    "dependencies NOT installed (they'll install on `/browser use`)"@
                }) + ".\nDirectory: "@ + dir@ + "\nStart it with `/browser use`."@
        },
{
    if !present {
        let mut v = chars_of("Biscuit Browser is not present.\nExpected at: ");
        extend_str(&mut v, dir);
        extend_str(&mut v, "\n(Run this from the Biscuits repo root.)");
        return string_of(v.as_slice());
    }
    let mut v = chars_of("Biscuit Browser: ");
    extend_str(&mut v, if running { "running (this session)" } else { "not running" });
    extend_str(&mut v, "; ");
    extend_str(&mut v, if installed { "dependencies installed" } else {
        "dependencies NOT installed (they'll install on `/browser use`)"
    });
    extend_str(&mut v, ".\nDirectory: ");
    extend_str(&mut v, dir);
    extend_str(&mut v, "\nStart it with `/browser use`.");
    string_of(v.as_slice())
}

/// The shell command that launches the browser: installing its
/// dependencies first when they are missing.
pub fn launch_command(installed: bool) -> (out: &'static str)
    ensures
        out@ == if installed { "npm run dev"@ } else { "npm install && npm run dev"@ },
{
    if installed { "npm run dev" } else { "npm install && npm run dev" }
}

/// The answer once the browser has been launched.
pub fn launched_text(installing: bool) -> (out: String)
    ensures
        out@ == "Launching Biscuit Browser in the background."@ + (if installing {
            " Installing dependencies first — the window may take a minute to appear."@
        } else {
            Seq::empty()
        }) + "\nOnce the window is up, its agent API (MCP) is at http://127.0.0.1:8765/mcp.\n`/browser status` to check, `/browser stop` to close it."@,
{
    let mut v = chars_of("Launching Biscuit Browser in the background.");
    if installing {
        extend_str(&mut v, " Installing dependencies first — the window may take a minute to appear.");
    }
    extend_str(&mut v, "\nOnce the window is up, its agent API (MCP) is at http://127.0.0.1:8765/mcp.\n`/browser status` to check, `/browser stop` to close it.");
    string_of(v.as_slice())
}

} // verus!

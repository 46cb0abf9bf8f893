//! Screen-level computer use: the `/computer-use` command language, key combo
//! parsing into virtual key codes and modifier flags, mouse buttons, and the
//! runtime's remembered target and screenshot.
use vstd::prelude::*;
use crate::text::{
    chars_eq_str, chars_of, decimal, decimal_string, extend_chars, extend_str, find_sub,
    find_sub_exec, parse_u64, parse_unsigned_spec, slice_chars, split_words, starts_with_str,
    string_of, to_lowercase, trim, trim_chars, trim_str, unicode_lowercase, views, words,
};
use crate::shell::{quote, quote_spec};

verus! {

broadcast use vstd::string::group_string_axioms;

pub const FLAG_SHIFT: u64 = 0x2_0000;
pub const FLAG_CONTROL: u64 = 0x4_0000;
pub const FLAG_ALT: u64 = 0x8_0000;
pub const FLAG_COMMAND: u64 = 0x10_0000;

/// A key press: a virtual key code and modifier flags.
#[derive(Clone, Copy, Debug, PartialEq, Eq, Structural)]
pub struct KeyStroke {
    pub code: u16,
    pub flags: u64,
}

/// A mouse button.
#[derive(Clone, Copy, Debug, PartialEq, Eq, Structural)]
pub enum Button {
    Left,
    Right,
    Middle,
}

// ---------------------------------------------------------------------------
// Key codes
// ---------------------------------------------------------------------------

/// Key names and their virtual key codes, first match wins.
pub open spec fn key_table() -> Seq<(&'static str, u16)> {
    seq![
        ("a", 0u16), ("s", 1u16), ("d", 2u16), ("f", 3u16), ("h", 4u16), ("g", 5u16),
        ("z", 6u16), ("x", 7u16), ("c", 8u16), ("v", 9u16), ("b", 11u16), ("q", 12u16),
        ("w", 13u16), ("e", 14u16), ("r", 15u16), ("y", 16u16), ("t", 17u16), ("1", 18u16),
        ("2", 19u16), ("3", 20u16), ("4", 21u16), ("6", 22u16), ("5", 23u16), ("=", 24u16),
        ("equal", 24u16), ("9", 25u16), ("7", 26u16), ("-", 27u16), ("minus", 27u16),
        ("8", 28u16), ("0", 29u16), ("]", 30u16), ("rightbracket", 30u16), ("o", 31u16),
        ("u", 32u16), ("[", 33u16), ("leftbracket", 33u16), ("i", 34u16), ("p", 35u16),
        ("return", 36u16), ("enter", 36u16), ("l", 37u16), ("j", 38u16), ("'", 39u16),
        ("quote", 39u16), ("k", 40u16), (";", 41u16), ("semicolon", 41u16), ("\\", 42u16),
        ("backslash", 42u16), (",", 43u16), ("comma", 43u16), ("/", 44u16), ("slash", 44u16),
        ("n", 45u16), ("m", 46u16), (".", 47u16), ("period", 47u16), ("tab", 48u16),
        ("space", 49u16), ("`", 50u16), ("grave", 50u16), ("delete", 51u16),
        ("backspace", 51u16), ("escape", 53u16), ("esc", 53u16), ("home", 115u16),
        ("pageup", 116u16), ("page-up", 116u16), ("end", 119u16), ("pagedown", 121u16),
        ("page-down", 121u16), ("left", 123u16), ("arrowleft", 123u16), ("right", 124u16),
        ("arrowright", 124u16), ("down", 125u16), ("arrowdown", 125u16), ("up", 126u16),
        ("arrowup", 126u16),
    ]
}

/// The code of the first table entry named `key`, from index `i` on.
pub open spec fn lookup_key(table: Seq<(&'static str, u16)>, key: Seq<char>, i: int) -> Option<u16>
    decreases table.len() - i,
{
    if i < 0 || i >= table.len() {
        None
    } else if table[i].0@ == key {
        Some(table[i].1)
    } else {
        lookup_key(table, key, i + 1)
    }
}

pub open spec fn key_code_spec(key: Seq<char>) -> Option<u16> {
    lookup_key(key_table(), key, 0)
}

/// The virtual key code of a named key; an error for an unknown name.
pub fn key_code_for(key: &str) -> (r: Result<u16, String>)
    ensures
        match r {
            Ok(c) => key_code_spec(key@) == Some(c),
            Err(e) => key_code_spec(key@) is None && e@ == "unknown key: "@ + key@,
        },
{
    let table: [(&str, u16); 80] = [
        ("a", 0u16), ("s", 1u16), ("d", 2u16), ("f", 3u16), ("h", 4u16), ("g", 5u16),
        ("z", 6u16), ("x", 7u16), ("c", 8u16), ("v", 9u16), ("b", 11u16), ("q", 12u16),
        ("w", 13u16), ("e", 14u16), ("r", 15u16), ("y", 16u16), ("t", 17u16), ("1", 18u16),
        ("2", 19u16), ("3", 20u16), ("4", 21u16), ("6", 22u16), ("5", 23u16), ("=", 24u16),
        ("equal", 24u16), ("9", 25u16), ("7", 26u16), ("-", 27u16), ("minus", 27u16),
        ("8", 28u16), ("0", 29u16), ("]", 30u16), ("rightbracket", 30u16), ("o", 31u16),
        ("u", 32u16), ("[", 33u16), ("leftbracket", 33u16), ("i", 34u16), ("p", 35u16),
        ("return", 36u16), ("enter", 36u16), ("l", 37u16), ("j", 38u16), ("'", 39u16),
        ("quote", 39u16), ("k", 40u16), (";", 41u16), ("semicolon", 41u16), ("\\", 42u16),
        ("backslash", 42u16), (",", 43u16), ("comma", 43u16), ("/", 44u16), ("slash", 44u16),
        ("n", 45u16), ("m", 46u16), (".", 47u16), ("period", 47u16), ("tab", 48u16),
        ("space", 49u16), ("`", 50u16), ("grave", 50u16), ("delete", 51u16),
        ("backspace", 51u16), ("escape", 53u16), ("esc", 53u16), ("home", 115u16),
        ("pageup", 116u16), ("page-up", 116u16), ("end", 119u16), ("pagedown", 121u16),
        ("page-down", 121u16), ("left", 123u16), ("arrowleft", 123u16), ("right", 124u16),
        ("arrowright", 124u16), ("down", 125u16), ("arrowdown", 125u16), ("up", 126u16),
        ("arrowup", 126u16),
    ];
    assert(table@ == key_table());
    let k = chars_of(key);
    let mut i: usize = 0;
    while i < 80
        invariant
            i <= 80,
            table@ == key_table(),
            k@ == key@,
            key_code_spec(key@) == lookup_key(key_table(), key@, i as int),
        decreases 80 - i,
    {
        let (name, code) = table[i];
        if chars_eq_str(k.as_slice(), name) {
            return Ok(code);
        }
        i += 1;
    }
    let mut v = chars_of("unknown key: ");
    extend_str(&mut v, key);
    Err(string_of(v.as_slice()))
}

// ---------------------------------------------------------------------------
// Key combos
// ---------------------------------------------------------------------------

/// `s` split at every `c` (`str::split`).
pub open spec fn split_on(s: Seq<char>, c: char) -> Seq<Seq<char>>
    decreases s.len(),
{
    let k = find_sub(s, seq![c], 0);
    if k < 0 {
        seq![s]
    } else {
        proof {
            crate::text::lemma_find_sub_range(s, seq![c], 0);
        }
        seq![s.take(k)] + split_on(s.skip(k + 1), c)
    }
}

/// Split `s` at every `c`.
pub fn split_on_char(s: &[char], c: char) -> (out: Vec<Vec<char>>)
    ensures
        views(out@) == split_on(s@, c),
{
    let sep: Vec<char> = vec![c];
    assert(sep@ =~= seq![c]);
    let mut out: Vec<Vec<char>> = Vec::new();
    let mut rest = slice_chars(s, 0, s.len());
    assert(rest@ =~= s@);
    loop
        invariant
            sep@ == seq![c],
            views(out@) + split_on(rest@, c) == split_on(s@, c),
        decreases rest@.len(),
    {
        let n = rest.len();
        match find_sub_exec(rest.as_slice(), sep.as_slice(), 0) {
            None => {
                let ghost before = views(out@);
                out.push(rest);
                assert(views(out@) =~= before + seq![rest@]);
                return out;
            },
            Some(k) => {
                let head = slice_chars(rest.as_slice(), 0, k);
                let tail = slice_chars(rest.as_slice(), k + 1, n);
                let ghost before = views(out@);
                out.push(head);
                assert(views(out@) =~= before + seq![head@]);
                assert(split_on(rest@, c) == seq![head@] + split_on(tail@, c));
                assert(views(out@) + split_on(tail@, c) =~= before + split_on(rest@, c));
                rest = tail;
            },
        }
    }
}

/// One part of a combo: a modifier adds its flag, an empty part is skipped,
/// anything else names the key (the last one wins).
pub open spec fn combo_step(acc: Result<(u64, Option<u16>), Seq<char>>, raw: Seq<char>) -> Result<(u64, Option<u16>), Seq<char>> {
    match acc {
        Err(e) => Err(e),
        Ok((flags, code)) => {
            let part = unicode_lowercase(trim(raw));
            if part.len() == 0 {
                Ok((flags, code))
            } else if part == "shift"@ {
                Ok((flags | FLAG_SHIFT, code))
            } else if part == "ctrl"@ || part == "control"@ {
                Ok((flags | FLAG_CONTROL, code))
            } else if part == "alt"@ || part == "option"@ {
                Ok((flags | FLAG_ALT, code))
            } else if part == "cmd"@ || part == "command"@ || part == "meta"@ || part == "super"@ {
                Ok((flags | FLAG_COMMAND, code))
            } else {
                match key_code_spec(part) {
                    Some(k) => Ok((flags, Some(k))),
                    None => Err("unknown key: "@ + part),
                }
            }
        },
    }
}

pub open spec fn combo_fold(parts: Seq<Seq<char>>) -> Result<(u64, Option<u16>), Seq<char>>
    decreases parts.len(),
{
    if parts.len() == 0 {
        Ok((0u64, None))
    } else {
        combo_step(combo_fold(parts.drop_last()), parts.last())
    }
}

/// A key combo such as `cmd+shift+s`: the parts split at `+`, folded left to
/// right; an error when a part names no key or no part names a non-modifier.
pub open spec fn key_stroke_spec(input: Seq<char>) -> Result<KeyStroke, Seq<char>> {
    match combo_fold(split_on(input, '+')) {
        Err(e) => Err(e),
        Ok((flags, code)) => match code {
            Some(c) => Ok(KeyStroke { code: c, flags }),
            None => Err("key combo requires a non-modifier key"@),
        },
    }
}

fn combo_part(flags: u64, code: Option<u16>, raw: &[char]) -> (r: Result<(u64, Option<u16>), String>)
    ensures
        match r {
            Ok(p) => combo_step(Ok((flags, code)), raw@) == Ok::<(u64, Option<u16>), Seq<char>>(p),
            Err(e) => combo_step(Ok((flags, code)), raw@) == Err::<(u64, Option<u16>), Seq<char>>(e@),
        },
{
    let t = trim_chars(raw);
    let ts = string_of(t.as_slice());
    let lower = to_lowercase(ts.as_str());
    let p = chars_of(lower.as_str());
    proof {
        reveal_strlit("shift");
        reveal_strlit("ctrl");
        reveal_strlit("control");
        reveal_strlit("alt");
        reveal_strlit("option");
        reveal_strlit("cmd");
        reveal_strlit("command");
        reveal_strlit("meta");
        reveal_strlit("super");
    }
    if p.len() == 0 {
        Ok((flags, code))
    } else if chars_eq_str(p.as_slice(), "shift") {
        Ok((flags | FLAG_SHIFT, code))
    } else if chars_eq_str(p.as_slice(), "ctrl") || chars_eq_str(p.as_slice(), "control") {
        Ok((flags | FLAG_CONTROL, code))
    } else if chars_eq_str(p.as_slice(), "alt") || chars_eq_str(p.as_slice(), "option") {
        Ok((flags | FLAG_ALT, code))
    } else if chars_eq_str(p.as_slice(), "cmd") || chars_eq_str(p.as_slice(), "command")
        || chars_eq_str(p.as_slice(), "meta") || chars_eq_str(p.as_slice(), "super") {
        Ok((flags | FLAG_COMMAND, code))
    } else {
        match key_code_for(lower.as_str()) {
            Ok(k) => Ok((flags, Some(k))),
            Err(e) => Err(e),
        }
    }
}

/// Parse a key combo such as `cmd+l` into a key code and modifier flags.
pub fn parse_key_stroke(input: &str) -> (r: Result<KeyStroke, String>)
    ensures
        match r {
            Ok(k) => key_stroke_spec(input@) == Ok::<KeyStroke, Seq<char>>(k),
            Err(e) => key_stroke_spec(input@) == Err::<KeyStroke, Seq<char>>(e@),
        },
{
    let s = chars_of(input);
    let parts = split_on_char(s.as_slice(), '+');
    let ghost all = views(parts@);
    let mut flags: u64 = 0;
    let mut code: Option<u16> = None;
    let mut i: usize = 0;
    while i < parts.len()
        invariant
            i <= parts@.len(),
            all == views(parts@),
            all == split_on(input@, '+'),
            combo_fold(all.take(i as int)) == Ok::<(u64, Option<u16>), Seq<char>>((flags, code)),
        decreases parts@.len() - i,
    {
        assert(all.take(i + 1).drop_last() =~= all.take(i as int));
        assert(all[i as int] == parts@[i as int]@);
        match combo_part(flags, code, parts[i].as_slice()) {
            Ok((f, c)) => {
                flags = f;
                code = c;
            },
            Err(e) => {
                proof {
                    lemma_combo_fold_err(all, i as int + 1, e@);
                }
                return Err(e);
            },
        }
        i += 1;
    }
    assert(all.take(i as int) =~= all);
    match code {
        Some(c) => Ok(KeyStroke { code: c, flags }),
        None => Err(String::from_str("key combo requires a non-modifier key")),
    }
}

/// Once the fold has failed, later parts keep the first error.
proof fn lemma_combo_fold_err(parts: Seq<Seq<char>>, k: int, e: Seq<char>)
    requires
        0 <= k <= parts.len(),
        combo_fold(parts.take(k)) == Err::<(u64, Option<u16>), Seq<char>>(e),
    ensures
        combo_fold(parts) == Err::<(u64, Option<u16>), Seq<char>>(e),
    decreases parts.len() - k,
{
    if k < parts.len() {
        assert(parts.take(k + 1).drop_last() =~= parts.take(k));
        lemma_combo_fold_err(parts, k + 1, e);
    } else {
        assert(parts.take(k) =~= parts);
    }
}

// ---------------------------------------------------------------------------
// Mouse buttons
// ---------------------------------------------------------------------------

pub open spec fn button_spec(input: Seq<char>) -> Option<Button> {
    let l = unicode_lowercase(input);
    if l == "left"@ || l == "primary"@ {
        Some(Button::Left)
    } else if l == "right"@ || l == "secondary"@ {
        Some(Button::Right)
    } else if l == "middle"@ || l == "center"@ {
        Some(Button::Middle)
    } else {
        None
    }
}

impl Button {
    /// A button by name (case-insensitive), with `primary`, `secondary` and
    /// `center` as synonyms.
    pub fn parse(input: &str) -> (r: Result<Button, String>)
        ensures
            match r {
                Ok(b) => button_spec(input@) == Some(b),
                Err(e) => button_spec(input@) is None && e@ == "unknown mouse button: "@
                    + unicode_lowercase(input@),
            },
    {
        let lower = to_lowercase(input);
        let l = chars_of(lower.as_str());
        if chars_eq_str(l.as_slice(), "left") || chars_eq_str(l.as_slice(), "primary") {
            Ok(Button::Left)
        } else if chars_eq_str(l.as_slice(), "right") || chars_eq_str(l.as_slice(), "secondary") {
            Ok(Button::Right)
        } else if chars_eq_str(l.as_slice(), "middle") || chars_eq_str(l.as_slice(), "center") {
            Ok(Button::Middle)
        } else {
            let mut v = chars_of("unknown mouse button: ");
            extend_chars(&mut v, l.as_slice());
            Err(string_of(v.as_slice()))
        }
    }

    /// The button's name as shown in reports.
    pub fn name(&self) -> (s: &'static str)
        ensures
            s@ == match *self {
                Button::Left => "left"@,
                Button::Right => "right"@,
                Button::Middle => "middle"@,
            },
    {
        match self {
            Button::Left => "left",
            Button::Right => "right",
            Button::Middle => "middle",
        }
    }
}

// ---------------------------------------------------------------------------
// Input on platforms without a driver
// ---------------------------------------------------------------------------

/// Typing needs the macOS event layer; elsewhere it reports so.
pub fn type_text(text: &str) -> (r: Result<(), String>)
    ensures
        r is Err && r->Err_0@ == "typing is currently implemented for macOS builds"@,
{
    Err(String::from_str("typing is currently implemented for macOS builds"))
}

/// Key presses need the macOS event layer; elsewhere it reports so.
pub fn press_key(stroke: KeyStroke) -> (r: Result<(), String>)
    ensures
        r is Err && r->Err_0@ == "keyboard control is currently implemented for macOS builds"@,
{
    Err(String::from_str("keyboard control is currently implemented for macOS builds"))
}

// ---------------------------------------------------------------------------
// The runtime and the /computer-use command
// ---------------------------------------------------------------------------

pub const HELP: &'static str = "computer use:
  /computer-use screenshot
  /computer-use open <url-or-path>
  /computer-use app <application-name>
  /computer-use run <shell-command>
  /computer-use click <x> <y> [left|right|middle]
  /computer-use move <x> <y>
  /computer-use type <text>
  /computer-use key <key-or-combo>
  /computer-use wait <milliseconds>
  /computer-use state

The ComputerUse tool gives the agent the same UI loop: open an app or website,
capture a screenshot, then move/click/type in screen pixel coordinates and
screenshot again for verification. On macOS, grant Screen Recording and
Accessibility permissions to the terminal app if screenshots or clicks are
blocked by the OS.";

/// `base` joined with the relative path `rel` (`Path::join`).
pub open spec fn path_join(base: Seq<char>, rel: Seq<char>) -> Seq<char> {
    if base.len() == 0 {
        rel
    } else if base.last() == '/' {
        base + rel
    } else {
        base + seq!['/'] + rel
    }
}

/// Join `rel` onto `base`.
pub fn join_path(base: &str, rel: &str) -> (out: String)
    ensures
        out@ == path_join(base@, rel@),
{
    let mut v = chars_of(base);
    if v.len() > 0 && v[v.len() - 1] != '/' {
        v.push('/');
    }
    extend_str(&mut v, rel);
    string_of(v.as_slice())
}

/// The screen-control session: the workspace it runs in, where screenshots
/// go, and the last target opened and screenshot taken.
pub struct ComputerUseRuntime {
    workspace: String,
    screenshot_dir: String,
    last_target: Option<String>,
    last_screenshot: Option<String>,
}

pub open spec fn opt_seq(o: Option<String>) -> Option<Seq<char>> {
    match o {
        Some(s) => Some(s@),
        None => None,
    }
}

/// An action for the platform layer to perform.
pub enum CuAction {
    Screenshot,
    /// Open a URL or path with the desktop's opener.
    Open(String),
    /// Launch an application by name.
    App(String),
    /// Run a shell command.
    Run(String),
    Type(String),
    Key(String),
    Wait(u64),
    /// Click at x, y (as written, parsed as numbers by the caller) with a
    /// button name.
    Click(String, String, String),
    Move(String, String),
}

/// What a `/computer-use` line asks for: a reply to show, or an action.
pub enum CuCommand {
    Reply(String),
    Act(CuAction),
}

/// The mathematical form of a command.
pub enum CuRequest {
    Reply(Seq<char>),
    Screenshot,
    Open(Seq<char>),
    App(Seq<char>),
    Run(Seq<char>),
    Type(Seq<char>),
    Key(Seq<char>),
    Wait(nat),
    Click(Seq<char>, Seq<char>, Seq<char>),
    Move(Seq<char>, Seq<char>),
}

pub open spec fn command_view(c: CuCommand) -> CuRequest {
    match c {
        CuCommand::Reply(s) => CuRequest::Reply(s@),
        CuCommand::Act(a) => match a {
            CuAction::Screenshot => CuRequest::Screenshot,
            CuAction::Open(t) => CuRequest::Open(t@),
            CuAction::App(t) => CuRequest::App(t@),
            CuAction::Run(t) => CuRequest::Run(t@),
            CuAction::Type(t) => CuRequest::Type(t@),
            CuAction::Key(t) => CuRequest::Key(t@),
            CuAction::Wait(ms) => CuRequest::Wait(ms as nat),
            CuAction::Click(x, y, b) => CuRequest::Click(x@, y@, b@),
            CuAction::Move(x, y) => CuRequest::Move(x@, y@),
        },
    }
}

/// The state report.
pub open spec fn state_spec(last_target: Option<Seq<char>>, last_screenshot: Option<Seq<char>>, dir: Seq<char>) -> Seq<char> {
    "computer_use_state:\nlast_target: "@ + (match last_target {
        Some(t) => t,
        None => "none"@,
    }) + "\nlast_screenshot: "@ + (match last_screenshot {
        Some(p) => p,
        None => "none"@,
    }) + "\nscreenshot_dir: "@ + dir
}

pub open spec fn usage_click() -> Seq<char> {
    "usage: /computer-use click <x> <y> [left|right|middle]"@
}

pub open spec fn usage_move() -> Seq<char> {
    "usage: /computer-use move <x> <y>"@
}

/// What a `/computer-use` line asks for, given the current state report;
/// none for a line that is not a `/computer-use` command.
pub open spec fn command_spec(input: Seq<char>, state: Seq<char>) -> Result<Option<CuRequest>, Seq<char>> {
    let input = trim(input);
    if input == "/computer-use"@ || input == "/computer-use help"@ {
        Ok(Some(CuRequest::Reply(HELP@)))
    } else if !"/computer-use "@.is_prefix_of(input) {
        Ok(None)
    } else {
        let rest = trim(input.skip(14));
        if rest.len() == 0 {
            Ok(Some(CuRequest::Reply(HELP@)))
        } else if rest == "screenshot"@ {
            Ok(Some(CuRequest::Screenshot))
        } else if rest == "state"@ {
            Ok(Some(CuRequest::Reply(state)))
        } else if "open "@.is_prefix_of(rest) {
            Ok(Some(CuRequest::Open(trim(rest.skip(5)))))
        } else if "app "@.is_prefix_of(rest) {
            Ok(Some(CuRequest::App(trim(rest.skip(4)))))
        } else if "run "@.is_prefix_of(rest) {
            Ok(Some(CuRequest::Run(trim(rest.skip(4)))))
        } else if "type "@.is_prefix_of(rest) {
            Ok(Some(CuRequest::Type(rest.skip(5))))
        } else if "key "@.is_prefix_of(rest) {
            Ok(Some(CuRequest::Key(trim(rest.skip(4)))))
        } else if "wait "@.is_prefix_of(rest) {
            match parse_unsigned_spec(trim(rest.skip(5)), u64::MAX as nat) {
                Some(ms) => Ok(Some(CuRequest::Wait(ms))),
                None => Err("wait requires milliseconds"@),
            }
        } else if "click "@.is_prefix_of(rest) {
            let w = words(rest.skip(6));
            if w.len() < 2 {
                Err(usage_click())
            } else {
                Ok(Some(CuRequest::Click(w[0], w[1], if w.len() > 2 { w[2] } else { "left"@ })))
            }
        } else if "move "@.is_prefix_of(rest) {
            let w = words(rest.skip(5));
            if w.len() < 2 {
                Err(usage_move())
            } else {
                Ok(Some(CuRequest::Move(w[0], w[1])))
            }
        } else {
            Ok(Some(CuRequest::Reply("unknown /computer-use command\n\n"@ + HELP@)))
        }
    }
}

pub open spec fn command_result_view(r: Result<Option<CuCommand>, String>) -> Result<Option<CuRequest>, Seq<char>> {
    match r {
        Ok(Some(c)) => Ok(Some(command_view(c))),
        Ok(None) => Ok(None),
        Err(e) => Err(e@),
    }
}

fn skip_chars(v: &[char], n: usize) -> (out: Vec<char>)
    requires
        n <= v@.len(),
    ensures
        out@ == v@.skip(n as int),
{
    let out = slice_chars(v, n, v.len());
    assert(out@ =~= v@.skip(n as int));
    out
}

fn string_of_vec(v: Vec<char>) -> (s: String)
    ensures
        s@ == v@,
{
    string_of(v.as_slice())
}

impl ComputerUseRuntime {
    pub closed spec fn workspace_path(&self) -> Seq<char> {
        self.workspace@
    }

    pub closed spec fn screenshot_path(&self) -> Seq<char> {
        self.screenshot_dir@
    }

    pub closed spec fn target(&self) -> Option<Seq<char>> {
        opt_seq(self.last_target)
    }

    pub closed spec fn screenshot(&self) -> Option<Seq<char>> {
        opt_seq(self.last_screenshot)
    }

    /// A runtime for `workspace` (already resolved to a canonical path);
    /// screenshots go under `.biscuits/computer_use/screenshots` in it.
    pub fn new(workspace: String) -> (r: ComputerUseRuntime)
        ensures
            r.workspace_path() == workspace@,
            r.screenshot_path() == path_join(workspace@, ".biscuits/computer_use/screenshots"@),
            r.target() is None,
            r.screenshot() is None,
    {
        let dir = join_path(workspace.as_str(), ".biscuits/computer_use/screenshots");
        ComputerUseRuntime { workspace, screenshot_dir: dir, last_target: None, last_screenshot: None }
    }

    /// The command reference.
    pub fn help() -> (s: &'static str)
        ensures
            s@ == HELP@,
    {
        HELP
    }

    /// The workspace the runtime acts in.
    pub fn workspace(&self) -> (s: &str)
        ensures
            s@ == self.workspace_path(),
    {
        self.workspace.as_str()
    }

    /// Where screenshots are written.
    pub fn screenshot_dir(&self) -> (s: &str)
        ensures
            s@ == self.screenshot_path(),
    {
        self.screenshot_dir.as_str()
    }

    /// Remember the target last opened.
    pub fn set_last_target(&mut self, target: String)
        ensures
            final(self).target() == Some(target@),
            final(self).screenshot() == old(self).screenshot(),
            final(self).workspace_path() == old(self).workspace_path(),
            final(self).screenshot_path() == old(self).screenshot_path(),
    {
        self.last_target = Some(target);
    }

    /// Remember the screenshot last taken.
    pub fn set_last_screenshot(&mut self, path: String)
        ensures
            final(self).screenshot() == Some(path@),
            final(self).target() == old(self).target(),
            final(self).workspace_path() == old(self).workspace_path(),
            final(self).screenshot_path() == old(self).screenshot_path(),
    {
        self.last_screenshot = Some(path);
    }

    /// The last target, last screenshot and screenshot directory.
    pub fn state(&self) -> (out: String)
        ensures
            out@ == state_spec(self.target(), self.screenshot(), self.screenshot_path()),
    {
        let mut v = chars_of("computer_use_state:\nlast_target: ");
        match &self.last_target {
            Some(t) => extend_str(&mut v, t.as_str()),
            None => extend_str(&mut v, "none"),
        }
        extend_str(&mut v, "\nlast_screenshot: ");
        match &self.last_screenshot {
            Some(p) => extend_str(&mut v, p.as_str()),
            None => extend_str(&mut v, "none"),
        }
        extend_str(&mut v, "\nscreenshot_dir: ");
        extend_str(&mut v, self.screenshot_dir.as_str());
        string_of(v.as_slice())
    }

    /// What a `/computer-use` line asks for: the help or state text to show,
    /// an action to perform, an error for malformed arguments, or none when
    /// the line is not a `/computer-use` command.
    pub fn command_output(&self, input: &str) -> (r: Result<Option<CuCommand>, String>)
        ensures
            command_result_view(r) == command_spec(input@, state_spec(self.target(), self.screenshot(), self.screenshot_path())),
    {
        proof {
            reveal_strlit("/computer-use ");
            reveal_strlit("open ");
            reveal_strlit("app ");
            reveal_strlit("run ");
            reveal_strlit("type ");
            reveal_strlit("key ");
            reveal_strlit("wait ");
            reveal_strlit("click ");
            reveal_strlit("move ");
        }
        let t = trim_str(input);
        if crate::text::chars_eq_str(t.as_slice(), "/computer-use") || crate::text::chars_eq_str(t.as_slice(), "/computer-use help") {
            return Ok(Some(CuCommand::Reply(String::from_str(HELP))));
        }
        if !starts_with_str(t.as_slice(), "/computer-use ") {
            return Ok(None);
        }
        let after = skip_chars(t.as_slice(), 14);
        let rest = trim_chars(after.as_slice());
        let r = rest.as_slice();
        if rest.len() == 0 {
            return Ok(Some(CuCommand::Reply(String::from_str(HELP))));
        }
        if crate::text::chars_eq_str(r, "screenshot") {
            return Ok(Some(CuCommand::Act(CuAction::Screenshot)));
        }
        if crate::text::chars_eq_str(r, "state") {
            return Ok(Some(CuCommand::Reply(self.state())));
        }
        if starts_with_str(r, "open ") {
            let a = skip_chars(r, 5);
            return Ok(Some(CuCommand::Act(CuAction::Open(string_of_vec(trim_chars(a.as_slice()))))));
        }
        if starts_with_str(r, "app ") {
            let a = skip_chars(r, 4);
            return Ok(Some(CuCommand::Act(CuAction::App(string_of_vec(trim_chars(a.as_slice()))))));
        }
        if starts_with_str(r, "run ") {
            let a = skip_chars(r, 4);
            return Ok(Some(CuCommand::Act(CuAction::Run(string_of_vec(trim_chars(a.as_slice()))))));
        }
        if starts_with_str(r, "type ") {
            let a = skip_chars(r, 5);
            return Ok(Some(CuCommand::Act(CuAction::Type(string_of_vec(a)))));
        }
        if starts_with_str(r, "key ") {
            let a = skip_chars(r, 4);
            return Ok(Some(CuCommand::Act(CuAction::Key(string_of_vec(trim_chars(a.as_slice()))))));
        }
        if starts_with_str(r, "wait ") {
            let a = skip_chars(r, 5);
            let n = trim_chars(a.as_slice());
            return match parse_u64(n.as_slice()) {
                Some(ms) => Ok(Some(CuCommand::Act(CuAction::Wait(ms)))),
                None => Err(String::from_str("wait requires milliseconds")),
            };
        }
        if starts_with_str(r, "click ") {
            let a = skip_chars(r, 6);
            let w = split_words(a.as_slice());
            if w.len() < 2 {
                return Err(String::from_str("usage: /computer-use click <x> <y> [left|right|middle]"));
            }
            let button = if w.len() > 2 {
                string_of(w[2].as_slice())
            } else {
                String::from_str("left")
            };
            return Ok(Some(CuCommand::Act(CuAction::Click(string_of(w[0].as_slice()), string_of(w[1].as_slice()), button))));
        }
        if starts_with_str(r, "move ") {
            let a = skip_chars(r, 5);
            let w = split_words(a.as_slice());
            if w.len() < 2 {
                return Err(String::from_str("usage: /computer-use move <x> <y>"));
            }
            return Ok(Some(CuCommand::Act(CuAction::Move(string_of(w[0].as_slice()), string_of(w[1].as_slice())))));
        }
        let mut v = chars_of("unknown /computer-use command\n\n");
        extend_str(&mut v, HELP);
        Ok(Some(CuCommand::Reply(string_of(v.as_slice()))))
    }
}

/// A label safe in a file name: ASCII letters, digits, `-` and `_` kept,
/// anything else turned into `-`.
pub open spec fn safe_label_spec(s: Seq<char>) -> Seq<char> {
    Seq::new(s.len(), |i: int| if ('a' <= s[i] <= 'z') || ('A' <= s[i] <= 'Z') || ('0' <= s[i] <= '9') || s[i] == '-' || s[i] == '_' { s[i] } else { '-' })
}

pub fn safe_label(input: &str) -> (out: String)
    ensures
        out@ == safe_label_spec(input@),
{
    let s = chars_of(input);
    let mut v: Vec<char> = Vec::new();
    let mut i: usize = 0;
    while i < s.len()
        invariant
            i <= s@.len(),
            v@ == safe_label_spec(s@.take(i as int)),
        decreases s@.len() - i,
    {
        let c = s[i];
        if ('a' <= c && c <= 'z') || ('A' <= c && c <= 'Z') || ('0' <= c && c <= '9') || c == '-' || c == '_' {
            v.push(c);
        } else {
            v.push('-');
        }
        i += 1;
        assert(v@ =~= safe_label_spec(s@.take(i as int)));
    }
    assert(s@.take(i as int) =~= s@);
    string_of(v.as_slice())
}

/// The shell command that opens a URL or path with the desktop's opener.
pub fn open_target_command(target: &str) -> (out: String)
    ensures
        out@ == "xdg-open "@ + quote_spec(target@),
{
    let q = quote(target);
    let mut v = chars_of("xdg-open ");
    extend_str(&mut v, q.as_str());
    string_of(v.as_slice())
}

/// The shell command that launches an application by name.
pub fn open_app_command(app: &str) -> (out: String)
    ensures
        out@ == quote_spec(app@),
{
    quote(app)
}

/// A screenshot line appended to an action report: its path, or the error.
pub fn append_screenshot_result(out: &mut String, screenshot: Result<String, String>)
    ensures
        final(out)@ == old(out)@ + match screenshot {
            Ok(p) => "\nscreenshot: "@ + p@,
            Err(e) => "\nscreenshot_error: "@ + e@,
        },
{
    let mut v = chars_of(out.as_str());
    match screenshot {
        Ok(p) => {
            extend_str(&mut v, "\nscreenshot: ");
            extend_str(&mut v, p.as_str());
        },
        Err(e) => {
            extend_str(&mut v, "\nscreenshot_error: ");
            extend_str(&mut v, e.as_str());
        },
    }
    *out = string_of(v.as_slice());
}

} // verus!

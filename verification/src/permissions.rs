//! Permission modes, the permission matrix that decides what a tool call may
//! do in each mode, the classification of shell commands, and the guard that
//! keeps the mode, the per-task allowances and the audit log.
use vstd::prelude::*;
use crate::json::{as_str, bool_member, get, get_str, str_member, Json, JsonTree};
use crate::tools::{call_view, is_computer_use, CallView, ToolCall};
use crate::text::{
    eq_ignore_ascii_case, to_lowercase, unicode_lowercase, any_prefix, chars_of, chars_eq_str, decimal, decimal_string, extend_chars, extend_str,
    first_word, first_word_exec, in_list, join, join_parts, slice_chars, starts_with_str,
    string_of, trim, trim_chars, trim_str, truncate_ellipsis, truncate_with_ellipsis, views,
};

verus! {

broadcast use vstd::string::group_string_axioms;

#[derive(Clone, Copy, PartialEq, Eq, Hash, Debug, Structural)]
pub enum Mode {
    Manual,
    Assisted,
    Auto,
}

#[derive(Clone, Copy, PartialEq, Eq, Hash, Debug, Structural)]
pub enum Action {
    ReadFile,
    WriteFile,
    CreateFile,
    DeleteFile,
    MoveFile,
    RunReadonlyCmd,
    RunProjectCmd,
    RunInstallCmd,
    RunAdminCmd,
    BrowserRead,
    BrowserFormSubmit,
    ComputerView,
    ComputerControl,
    SendEmail,
    SendMessage,
    UploadFile,
    DownloadFile,
    UseApi,
    UseMcp,
    AccessOutsideWorkspace,
    AccessSecret,
    MakePayment,
    ChangeSystemSettings,
}

#[derive(Clone, Copy, PartialEq, Eq, Debug, Structural)]
pub enum Decision {
    Allow,
    Ask,
    Block,
}

pub open spec fn mode_label(m: Mode) -> Seq<char> {
    match m {
        Mode::Manual => "Manual"@,
        Mode::Assisted => "Assisted"@,
        Mode::Auto => "Auto"@,
    }
}

pub open spec fn mode_subtitle(m: Mode) -> Seq<char> {
    match m {
        Mode::Manual => "Ask before every action"@,
        Mode::Assisted => "Auto safe actions, ask before edits"@,
        Mode::Auto => "Work without asking inside approved workspace"@,
    }
}

impl Mode {
    pub fn label(self) -> (s: &'static str)
        ensures
            s@ == mode_label(self),
    {
        match self {
            Mode::Manual => "Manual",
            Mode::Assisted => "Assisted",
            Mode::Auto => "Auto",
        }
    }

    pub fn subtitle(self) -> (s: &'static str)
        ensures
            s@ == mode_subtitle(self),
    {
        match self {
            Mode::Manual => "Ask before every action",
            Mode::Assisted => "Auto safe actions, ask before edits",
            Mode::Auto => "Work without asking inside approved workspace",
        }
    }
}

pub open spec fn action_label(a: Action) -> Seq<char> {
    match a {
        Action::ReadFile => "Read file"@,
        Action::WriteFile => "Edit file"@,
        Action::CreateFile => "Create file"@,
        Action::DeleteFile => "Delete file"@,
        Action::MoveFile => "Move/rename file"@,
        Action::RunReadonlyCmd => "Run read-only command"@,
        Action::RunProjectCmd => "Run project command"@,
        Action::RunInstallCmd => "Install package"@,
        Action::RunAdminCmd => "Run admin/sudo command"@,
        Action::BrowserRead => "Read webpage"@,
        Action::BrowserFormSubmit => "Submit web form"@,
        Action::ComputerView => "View screen"@,
        Action::ComputerControl => "Control computer"@,
        Action::SendEmail => "Send email"@,
        Action::SendMessage => "Send message"@,
        Action::UploadFile => "Upload file"@,
        Action::DownloadFile => "Download file"@,
        Action::UseApi => "Use API"@,
        Action::UseMcp => "Use MCP tool"@,
        Action::AccessOutsideWorkspace => "Access outside workspace"@,
        Action::AccessSecret => "Access secret/password"@,
        Action::MakePayment => "Make payment"@,
        Action::ChangeSystemSettings => "Change system settings"@,
    }
}

/// The risk tier shown when approval is requested.
pub open spec fn action_risk(a: Action) -> Seq<char> {
    match a {
        Action::ReadFile | Action::RunReadonlyCmd | Action::BrowserRead | Action::ComputerView => "Low"@,
        Action::DeleteFile | Action::SendEmail | Action::SendMessage => "High"@,
        Action::RunAdminCmd | Action::AccessOutsideWorkspace | Action::AccessSecret
        | Action::MakePayment | Action::ChangeSystemSettings => "Critical"@,
        _ => "Medium"@,
    }
}

impl Action {
    pub fn label(self) -> (s: &'static str)
        ensures
            s@ == action_label(self),
    {
        match self {
            Action::ReadFile => "Read file",
            Action::WriteFile => "Edit file",
            Action::CreateFile => "Create file",
            Action::DeleteFile => "Delete file",
            Action::MoveFile => "Move/rename file",
            Action::RunReadonlyCmd => "Run read-only command",
            Action::RunProjectCmd => "Run project command",
            Action::RunInstallCmd => "Install package",
            Action::RunAdminCmd => "Run admin/sudo command",
            Action::BrowserRead => "Read webpage",
            Action::BrowserFormSubmit => "Submit web form",
            Action::ComputerView => "View screen",
            Action::ComputerControl => "Control computer",
            Action::SendEmail => "Send email",
            Action::SendMessage => "Send message",
            Action::UploadFile => "Upload file",
            Action::DownloadFile => "Download file",
            Action::UseApi => "Use API",
            Action::UseMcp => "Use MCP tool",
            Action::AccessOutsideWorkspace => "Access outside workspace",
            Action::AccessSecret => "Access secret/password",
            Action::MakePayment => "Make payment",
            Action::ChangeSystemSettings => "Change system settings",
        }
    }

    pub fn risk(self) -> (s: &'static str)
        ensures
            s@ == action_risk(self),
    {
        match self {
            Action::ReadFile | Action::RunReadonlyCmd | Action::BrowserRead
            | Action::ComputerView => "Low",
            Action::DeleteFile | Action::SendEmail | Action::SendMessage => "High",
            Action::RunAdminCmd | Action::AccessOutsideWorkspace | Action::AccessSecret
            | Action::MakePayment | Action::ChangeSystemSettings => "Critical",
            _ => "Medium",
        }
    }
}

/// Actions that are blocked in every mode.
pub open spec fn always_blocked(a: Action) -> bool {
    a == Action::RunAdminCmd || a == Action::AccessOutsideWorkspace || a == Action::AccessSecret
        || a == Action::MakePayment || a == Action::ChangeSystemSettings
}

/// Actions that the Assisted mode runs without asking.
pub open spec fn safe_action(a: Action) -> bool {
    a == Action::ReadFile || a == Action::RunReadonlyCmd || a == Action::BrowserRead || a
        == Action::ComputerView
}

/// The permission matrix.
pub open spec fn check_spec(mode: Mode, action: Action) -> Decision {
    if always_blocked(action) {
        Decision::Block
    } else {
        match mode {
            Mode::Manual => Decision::Ask,
            Mode::Assisted => if safe_action(action) { Decision::Allow } else { Decision::Ask },
            Mode::Auto => if action == Action::SendEmail || action == Action::SendMessage {
                Decision::Block
            } else {
                Decision::Allow
            },
        }
    }
}

/// What the permission matrix decides for `action` in `mode`.
pub fn check(mode: Mode, action: Action) -> (d: Decision)
    ensures
        d == check_spec(mode, action),
{
    match action {
        Action::RunAdminCmd | Action::AccessOutsideWorkspace | Action::AccessSecret
        | Action::MakePayment | Action::ChangeSystemSettings => return Decision::Block,
        _ => {},
    }
    match mode {
        Mode::Manual => Decision::Ask,
        Mode::Assisted => match action {
            Action::ReadFile | Action::RunReadonlyCmd | Action::BrowserRead
            | Action::ComputerView => Decision::Allow,
            _ => Decision::Ask,
        },
        Mode::Auto => match action {
            Action::SendEmail | Action::SendMessage => Decision::Block,
            _ => Decision::Allow,
        },
    }
}

/// Dangerous system-level actions are blocked whatever the mode.
pub proof fn law_critical_actions_always_blocked(mode: Mode, action: Action)
    requires
        always_blocked(action),
    ensures
        check_spec(mode, action) == Decision::Block,
        action_risk(action) == "Critical"@,
{
}

/// Modes are ordered by trust: Manual allows nothing without asking, and
/// whatever Assisted allows, Auto allows too.
pub proof fn law_modes_widen_permissions(action: Action)
    ensures
        check_spec(Mode::Manual, action) != Decision::Allow,
        check_spec(Mode::Assisted, action) == Decision::Allow ==> check_spec(Mode::Auto, action)
            == Decision::Allow,
        check_spec(Mode::Manual, action) == Decision::Block ==> check_spec(Mode::Assisted, action)
            == Decision::Block,
{
}

// ---------------------------------------------------------------------------
// Shell command classification
// ---------------------------------------------------------------------------

pub open spec fn install_prefixes() -> Seq<&'static str> {
    seq![
        "npm install",
        "npm i ",
        "yarn add",
        "pip install",
        "pip3 install",
        "cargo install",
        "cargo add",
        "brew install",
        "apt install",
        "apt-get install",
    ]
}

pub open spec fn readonly_commands() -> Seq<&'static str> {
    seq![
        "ls", "pwd", "cat", "head", "tail", "wc", "file", "find", "which", "echo", "date",
        "whoami", "env", "printenv", "tree", "du", "df",
    ]
}

pub open spec fn readonly_git() -> Seq<&'static str> {
    seq!["status", "diff", "log", "show", "branch", "remote", "tag", "stash list", "rev-parse"]
}

pub open spec fn search_commands() -> Seq<&'static str> {
    seq!["grep", "rg", "ag", "ack"]
}

pub open spec fn listed(list: Seq<&'static str>, w: Seq<char>) -> bool {
    exists|i: int| 0 <= i < list.len() && (#[trigger] list[i])@ == w
}

pub open spec fn prefixed(list: Seq<&'static str>, v: Seq<char>) -> bool {
    exists|i: int| 0 <= i < list.len() && (#[trigger] list[i])@.is_prefix_of(v)
}

/// A read-only git invocation: `cmd` is `git` followed by one of the
/// read-only subcommands (or `stash list`).
pub open spec fn git_readonly(cmd: Seq<char>) -> bool {
    let rest = trim(cmd.skip("git"@.len() as int));
    listed(readonly_git(), first_word(rest)) || "stash list"@.is_prefix_of(rest)
}

/// The action a shell command amounts to.
pub open spec fn classify_bash_spec(raw: Seq<char>) -> Action {
    let cmd = trim(raw);
    let first = first_word(cmd);
    if first == "sudo"@ || "rm -rf /"@.is_prefix_of(cmd) {
        Action::RunAdminCmd
    } else if prefixed(install_prefixes(), cmd) {
        Action::RunInstallCmd
    } else if listed(readonly_commands(), first) {
        Action::RunReadonlyCmd
    } else if first == "git"@ && git_readonly(cmd) {
        Action::RunReadonlyCmd
    } else if listed(search_commands(), first) {
        Action::RunReadonlyCmd
    } else {
        Action::RunProjectCmd
    }
}

/// Searching is reading: a command whose first word is `grep`, `rg`, `ag`
/// or `ack` (and that is not an install or `rm -rf /`) is a read-only
/// command, which Assisted and Auto modes allow without asking and Manual
/// mode asks about.
pub proof fn law_search_commands_are_read_only(raw: Seq<char>)
    requires
        first_word(trim(raw)) == "grep"@ || first_word(trim(raw)) == "rg"@ || first_word(trim(raw)) == "ag"@
            || first_word(trim(raw)) == "ack"@,
        !"rm -rf /"@.is_prefix_of(trim(raw)),
        !prefixed(install_prefixes(), trim(raw)),
    ensures
        classify_bash_spec(raw) == Action::RunReadonlyCmd,
        check_spec(Mode::Assisted, classify_bash_spec(raw)) == Decision::Allow,
        check_spec(Mode::Auto, classify_bash_spec(raw)) == Decision::Allow,
        check_spec(Mode::Manual, classify_bash_spec(raw)) == Decision::Ask,
{
    reveal_strlit("grep");
    reveal_strlit("rg");
    reveal_strlit("ag");
    reveal_strlit("ack");
    reveal_strlit("sudo");
    reveal_strlit("git");
    reveal_strlit("ls");
    reveal_strlit("pwd");
    reveal_strlit("cat");
    reveal_strlit("head");
    reveal_strlit("tail");
    reveal_strlit("wc");
    reveal_strlit("file");
    reveal_strlit("find");
    reveal_strlit("which");
    reveal_strlit("echo");
    reveal_strlit("date");
    reveal_strlit("whoami");
    reveal_strlit("env");
    reveal_strlit("printenv");
    reveal_strlit("tree");
    reveal_strlit("du");
    reveal_strlit("df");
    let w = first_word(trim(raw));
    assert(w != "sudo"@) by {
        if w == "sudo"@ {
            assert(w[0] == 's');
        }
    }
    assert(w != "git"@) by {
        if w == "git"@ {
            assert(w.len() == 3 && w[0] == 'g');
        }
    }
    assert(!listed(readonly_commands(), w)) by {
        if listed(readonly_commands(), w) {
            let i = choose|i: int| 0 <= i < readonly_commands().len() && (#[trigger] readonly_commands()[i])@ == w;
            assert(readonly_commands()[i]@ == w);
            assert(w[0] == readonly_commands()[i]@[0]);
        }
    }
    let s = search_commands();
    if w == "grep"@ {
        assert(s[0]@ == w);
    } else if w == "rg"@ {
        assert(s[1]@ == w);
    } else if w == "ag"@ {
        assert(s[2]@ == w);
    } else {
        assert(s[3]@ == w);
    }
    assert(listed(s, w));
}

/// Classify a shell command line.
pub fn classify_bash(raw: &str) -> (a: Action)
    ensures
        a == classify_bash_spec(raw@),
{
    let cmd = trim_str(raw);
    let first = first_word_exec(cmd.as_slice());
    if chars_eq_str(first.as_slice(), "sudo") || starts_with_str(cmd.as_slice(), "rm -rf /") {
        return Action::RunAdminCmd;
    }
    let installs: [&str; 10] = [
        "npm install",
        "npm i ",
        "yarn add",
        "pip install",
        "pip3 install",
        "cargo install",
        "cargo add",
        "brew install",
        "apt install",
        "apt-get install",
    ];
    assert(installs@ == install_prefixes());
    if any_prefix(cmd.as_slice(), &installs) {
        return Action::RunInstallCmd;
    }
    let ro: [&str; 17] = [
        "ls", "pwd", "cat", "head", "tail", "wc", "file", "find", "which", "echo", "date",
        "whoami", "env", "printenv", "tree", "du", "df",
    ];
    assert(ro@ == readonly_commands());
    if in_list(first.as_slice(), &ro) {
        return Action::RunReadonlyCmd;
    }
    if chars_eq_str(first.as_slice(), "git") {
        let g = chars_of("git");
        proof {
            crate::text::lemma_first_word_len(cmd@);
        }
        let rest0 = if g.len() <= cmd.len() {
            slice_chars(cmd.as_slice(), g.len(), cmd.len())
        } else {
            Vec::new()
        };
        assert(rest0@ =~= cmd@.skip("git"@.len() as int));
        let rest = trim_chars(rest0.as_slice());
        let sub = first_word_exec(rest.as_slice());
        let ro_git: [&str; 9] = [
            "status", "diff", "log", "show", "branch", "remote", "tag", "stash list", "rev-parse",
        ];
        assert(ro_git@ == readonly_git());
        if in_list(sub.as_slice(), &ro_git) || starts_with_str(rest.as_slice(), "stash list") {
            return Action::RunReadonlyCmd;
        }
    }
    let search: [&str; 4] = ["grep", "rg", "ag", "ack"];
    assert(search@ == search_commands());
    if in_list(first.as_slice(), &search) {
        return Action::RunReadonlyCmd;
    }
    Action::RunProjectCmd
}

// ---------------------------------------------------------------------------
// Timestamps
// ---------------------------------------------------------------------------

pub open spec fn is_leap_spec(y: int) -> bool {
    y % 4 == 0 && (y % 100 != 0 || y % 400 == 0)
}

pub fn is_leap(y: i64) -> (b: bool)
    requires
        y >= 0,
    ensures
        b == is_leap_spec(y as int),
{
    y % 4 == 0 && (y % 100 != 0 || y % 400 == 0)
}

pub open spec fn days_in_year(y: int) -> int {
    if is_leap_spec(y) { 366 } else { 365 }
}

/// The year containing day `rem` counted from January 1 of `y`, and the day
/// within that year.
pub open spec fn civil_year(rem: int, y: int) -> (int, int)
    decreases rem,
{
    if rem < days_in_year(y) || rem < 0 {
        (y, rem)
    } else {
        civil_year(rem - days_in_year(y), y + 1)
    }
}

pub open spec fn month_len(m: int, leap: bool) -> int {
    if m == 2 { if leap { 29 } else { 28 } }
    else if m == 4 || m == 6 || m == 9 || m == 11 { 30 }
    else { 31 }
}

/// The month (from `m`) containing day `rem` of a year, and the day within it.
pub open spec fn civil_month(rem: int, m: int, leap: bool) -> (int, int)
    decreases 13 - m,
{
    if m > 12 || rem < month_len(m, leap) {
        (m, rem)
    } else {
        civil_month(rem - month_len(m, leap), m + 1, leap)
    }
}

/// `n` in decimal, left-padded with zeros to `width` digits.
pub open spec fn padded(n: nat, width: nat) -> Seq<char> {
    let d = decimal(n);
    if d.len() >= width { d } else { crate::text::repeat('0', (width - d.len()) as nat) + d }
}

fn year_days(y: i64) -> (d: i64)
    requires
        y >= 0,
    ensures
        d == days_in_year(y as int),
{
    if is_leap(y) { 366 } else { 365 }
}

fn month_days(mo: i64, leap: bool) -> (d: i64)
    ensures
        d == month_len(mo as int, leap),
{
    if mo == 2 { if leap { 29 } else { 28 } } else if mo == 4 || mo == 6 || mo == 9 || mo == 11 { 30 } else { 31 }
}

/// `YYYY-MM-DDTHH:MM:SSZ` for `secs` seconds after the UNIX epoch.
pub open spec fn iso_spec(secs: nat) -> Seq<char> {
    let s = secs % 60;
    let mi = (secs / 60) % 60;
    let h = (secs / 3600) % 24;
    let days = secs / 86400;
    let (y, rem) = civil_year(days as int, 1970);
    let (mo, d0) = civil_month(rem, 1, is_leap_spec(y));
    padded(y as nat, 4) + seq!['-'] + padded(mo as nat, 2) + seq!['-'] + padded((d0 + 1) as nat, 2)
        + seq!['T'] + padded(h, 2) + seq![':'] + padded(mi, 2) + seq![':'] + padded(s, 2) + seq!['Z']
}

fn padded_exec(n: u64, width: usize) -> (out: Vec<char>)
    ensures
        out@ == padded(n as nat, width as nat),
{
    let d = decimal_string(n);
    if d.len() >= width {
        d
    } else {
        let mut out = crate::text::repeat_chars('0', width - d.len());
        extend_chars(&mut out, d.as_slice());
        out
    }
}

/// Format `total_secs` seconds after the UNIX epoch as an ISO-8601 UTC
/// timestamp (proleptic Gregorian calendar).
pub fn iso_from_secs(total_secs: u64) -> (out: String)
    ensures
        out@ == iso_spec(total_secs as nat),
{
    let s = total_secs % 60;
    let m = (total_secs / 60) % 60;
    let h = (total_secs / 3600) % 24;
    let total_days = total_secs / 86400;
    let mut y: i64 = 1970;
    let mut remaining: i64 = total_days as i64;
    assert(total_days <= 213503982334601);
    while remaining >= year_days(y)
        invariant
            0 <= remaining <= total_days,
            total_days <= 213503982334601,
            1970 <= y <= 1970 + total_days - remaining,
            civil_year(total_days as int, 1970) == civil_year(remaining as int, y as int),
        decreases remaining,
    {
        let diy: i64 = year_days(y);
        remaining = remaining - diy;
        y = y + 1;
    }
    let leap = is_leap(y);
    let mut mo: i64 = 1;
    while mo <= 12 && remaining >= month_days(mo, leap)
        invariant
            1 <= mo <= 13,
            0 <= remaining <= total_days,
            leap == is_leap_spec(y as int),
            civil_month(civil_year(total_days as int, 1970).1, 1, leap) == civil_month(remaining as int, mo as int, leap),
        decreases 13 - mo,
    {
        let md: i64 = month_days(mo, leap);
        remaining = remaining - md;
        mo = mo + 1;
    }
    let day = remaining + 1;
    let mut out = padded_exec(y as u64, 4);
    out.push('-');
    let v = padded_exec(mo as u64, 2);
    extend_chars(&mut out, v.as_slice());
    out.push('-');
    let v = padded_exec(day as u64, 2);
    extend_chars(&mut out, v.as_slice());
    out.push('T');
    let v = padded_exec(h, 2);
    extend_chars(&mut out, v.as_slice());
    out.push(':');
    let v = padded_exec(m, 2);
    extend_chars(&mut out, v.as_slice());
    out.push(':');
    let v = padded_exec(s, 2);
    extend_chars(&mut out, v.as_slice());
    out.push('Z');
    proof {
        let (yy, rr) = civil_year(total_days as int, 1970);
        assert(yy == y && rr == civil_year(total_days as int, 1970).1);
    }
    string_of(out.as_slice())
}

// ---------------------------------------------------------------------------
// Guard
// ---------------------------------------------------------------------------

pub open spec fn mode_name(m: Mode) -> Seq<char> {
    mode_label(m)
}

pub open spec fn action_name(a: Action) -> Seq<char> {
    match a {
        Action::ReadFile => "ReadFile"@,
        Action::WriteFile => "WriteFile"@,
        Action::CreateFile => "CreateFile"@,
        Action::DeleteFile => "DeleteFile"@,
        Action::MoveFile => "MoveFile"@,
        Action::RunReadonlyCmd => "RunReadonlyCmd"@,
        Action::RunProjectCmd => "RunProjectCmd"@,
        Action::RunInstallCmd => "RunInstallCmd"@,
        Action::RunAdminCmd => "RunAdminCmd"@,
        Action::BrowserRead => "BrowserRead"@,
        Action::BrowserFormSubmit => "BrowserFormSubmit"@,
        Action::ComputerView => "ComputerView"@,
        Action::ComputerControl => "ComputerControl"@,
        Action::SendEmail => "SendEmail"@,
        Action::SendMessage => "SendMessage"@,
        Action::UploadFile => "UploadFile"@,
        Action::DownloadFile => "DownloadFile"@,
        Action::UseApi => "UseApi"@,
        Action::UseMcp => "UseMcp"@,
        Action::AccessOutsideWorkspace => "AccessOutsideWorkspace"@,
        Action::AccessSecret => "AccessSecret"@,
        Action::MakePayment => "MakePayment"@,
        Action::ChangeSystemSettings => "ChangeSystemSettings"@,
    }
}

pub open spec fn decision_name(d: Decision) -> Seq<char> {
    match d {
        Decision::Allow => "Allow"@,
        Decision::Ask => "Ask"@,
        Decision::Block => "Block"@,
    }
}

fn action_name_exec(a: Action) -> (s: &'static str)
    ensures
        s@ == action_name(a),
{
    match a {
        Action::ReadFile => "ReadFile",
        Action::WriteFile => "WriteFile",
        Action::CreateFile => "CreateFile",
        Action::DeleteFile => "DeleteFile",
        Action::MoveFile => "MoveFile",
        Action::RunReadonlyCmd => "RunReadonlyCmd",
        Action::RunProjectCmd => "RunProjectCmd",
        Action::RunInstallCmd => "RunInstallCmd",
        Action::RunAdminCmd => "RunAdminCmd",
        Action::BrowserRead => "BrowserRead",
        Action::BrowserFormSubmit => "BrowserFormSubmit",
        Action::ComputerView => "ComputerView",
        Action::ComputerControl => "ComputerControl",
        Action::SendEmail => "SendEmail",
        Action::SendMessage => "SendMessage",
        Action::UploadFile => "UploadFile",
        Action::DownloadFile => "DownloadFile",
        Action::UseApi => "UseApi",
        Action::UseMcp => "UseMcp",
        Action::AccessOutsideWorkspace => "AccessOutsideWorkspace",
        Action::AccessSecret => "AccessSecret",
        Action::MakePayment => "MakePayment",
        Action::ChangeSystemSettings => "ChangeSystemSettings",
    }
}

fn decision_name_exec(d: Decision) -> (s: &'static str)
    ensures
        s@ == decision_name(d),
{
    match d {
        Decision::Allow => "Allow",
        Decision::Ask => "Ask",
        Decision::Block => "Block",
    }
}

/// One audit-log entry: what was attempted, in which mode, and what came of it.
pub struct LogEntry {
    pub timestamp: String,
    pub mode: Mode,
    pub action: Action,
    pub tool: String,
    pub target: String,
    pub result: Decision,
    pub user_decision: Option<String>,
}

/// `timestamp [Mode] Action → Decision (user: …) | tool | target`.
pub open spec fn entry_summary(e: LogEntry) -> Seq<char> {
    let ud = match e.user_decision {
        Some(d) => " (user: "@ + d@ + ")"@,
        None => Seq::empty(),
    };
    e.timestamp@ + " ["@ + mode_name(e.mode) + "] "@ + action_name(e.action) + " → "@
        + decision_name(e.result) + ud + " | "@ + e.tool@ + " | "@ + e.target@
}

impl LogEntry {
    pub fn summary(&self) -> (out: Vec<char>)
        ensures
            out@ == entry_summary(*self),
    {
        let mut v = chars_of(self.timestamp.as_str());
        extend_str(&mut v, " [");
        extend_str(&mut v, self.mode.label());
        extend_str(&mut v, "] ");
        extend_str(&mut v, action_name_exec(self.action));
        extend_str(&mut v, " → ");
        extend_str(&mut v, decision_name_exec(self.result));
        match &self.user_decision {
            Some(d) => {
                extend_str(&mut v, " (user: ");
                extend_str(&mut v, d.as_str());
                extend_str(&mut v, ")");
            },
            None => {
                assert(v@ + Seq::<char>::empty() =~= v@);
            },
        }
        extend_str(&mut v, " | ");
        extend_str(&mut v, self.tool.as_str());
        extend_str(&mut v, " | ");
        extend_str(&mut v, self.target.as_str());
        v
    }
}

/// The summaries of the last `n` entries (or all, when fewer), oldest first.
pub open spec fn last_summaries(log: Seq<LogEntry>, n: nat) -> Seq<Seq<char>> {
    let start = if log.len() > n { log.len() - n } else { 0 };
    log.skip(start).map_values(|e: LogEntry| entry_summary(e))
}

/// The mode, the per-task allowances and the audit log of tool calls.
pub struct PermissionGuard {
    pub mode: Mode,
    pub log: Vec<LogEntry>,
    pub task_allowed: Vec<Action>,
    pub config_path: String,
    pub stop_requested: bool,
    /// Set when the mode changed and the program should persist it.
    pub save_pending: bool,
}

pub open spec fn status_spec(mode: Mode, log: Seq<LogEntry>) -> Seq<char> {
    let recent = last_summaries(log, 5);
    let recent_str = if recent.len() == 0 { "  (none yet)"@ } else { join(recent, "\n  "@) };
    "permission mode: "@ + mode_label(mode) + " — "@ + mode_subtitle(mode) + "\nrecent actions:\n  "@
        + recent_str
}

pub open spec fn log_spec(log: Seq<LogEntry>) -> Seq<char> {
    if log.len() == 0 {
        "no actions logged yet"@
    } else {
        let entries = last_summaries(log, 20);
        "permission log (last "@ + decimal(entries.len()) + "):\n"@ + join(entries, "\n"@)
    }
}

pub open spec fn info_spec(mode: Mode, path: Seq<char>) -> Seq<char> {
    info_head() + mode_label(mode) + " — "@ + mode_subtitle(mode) + "\nStored at:    "@ + path
}

pub open spec fn info_head() -> Seq<char> {
    "Agent Permission Modes:\n\n  Manual   — Ask before every action\n    Allow: thinking, planning, chat only\n    Ask:   all tool actions (read, edit, run, browse, etc.)\n    Block: dangerous system actions\n\n  Assisted — Auto safe actions, ask before edits  [default]\n    Allow: read files, search, web browse, read-only commands, screenshots\n    Ask:   edits, creates, deletes, project commands, installs, MCP, computer control\n    Block: dangerous system actions\n\n  Auto     — Work without asking inside approved workspace\n    Allow: all normal workspace actions (read, write, run, browse, MCP)\n    Ask:   (none)\n    Block: admin/sudo commands, outside workspace access, secrets, payments,\n           system settings, sending emails/messages\n\nCurrent mode: "@
}

/// The reply of `/permissions …` and the mode it leaves behind.
pub open spec fn command_spec(mode: Mode, log: Seq<LogEntry>, path: Seq<char>, input: Seq<char>) -> Option<Seq<char>> {
    let t = trim(input);
    if t == "/permissions"@ {
        Some(status_spec(mode, log))
    } else if !"/permissions "@.is_prefix_of(t) {
        None
    } else {
        let rest = trim(t.skip("/permissions "@.len() as int));
        if rest == "manual"@ {
            Some("permission mode set to "@ + mode_label(Mode::Manual))
        } else if rest == "assisted"@ {
            Some("permission mode set to "@ + mode_label(Mode::Assisted))
        } else if rest == "auto"@ {
            Some("permission mode set to "@ + mode_label(Mode::Auto))
        } else if rest == "log"@ {
            Some(log_spec(log))
        } else if rest == "stop"@ {
            Some("stop requested — agent will halt after current action"@)
        } else if rest == "info"@ {
            Some(info_spec(mode, path))
        } else {
            Some("unknown: "@ + rest + "\nusage: /permissions [manual|assisted|auto|log|stop|info]"@)
        }
    }
}

/// The mode `/permissions …` switches to, if it switches.
pub open spec fn command_mode(input: Seq<char>) -> Option<Mode> {
    let t = trim(input);
    if t != "/permissions"@ && "/permissions "@.is_prefix_of(t) {
        let rest = trim(t.skip("/permissions "@.len() as int));
        if rest == "manual"@ { Some(Mode::Manual) }
        else if rest == "assisted"@ { Some(Mode::Assisted) }
        else if rest == "auto"@ { Some(Mode::Auto) }
        else { None }
    } else {
        None
    }
}

/// Whether `/permissions …` asks the agent to stop.
pub open spec fn command_stops(input: Seq<char>) -> bool {
    let t = trim(input);
    t != "/permissions"@ && "/permissions "@.is_prefix_of(t) && trim(t.skip("/permissions "@.len() as int)) == "stop"@
}

fn last_summaries_exec(log: &Vec<LogEntry>, n: usize) -> (out: Vec<Vec<char>>)
    ensures
        views(out@) == last_summaries(log@, n as nat),
{
    let start = if log.len() > n { log.len() - n } else { 0 };
    let mut out: Vec<Vec<char>> = Vec::new();
    let mut i = start;
    while i < log.len()
        invariant
            start <= i <= log@.len(),
            start == (if log@.len() > n { log@.len() - n } else { 0 }),
            views(out@) == log@.subrange(start as int, i as int).map_values(|e: LogEntry| entry_summary(e)),
        decreases log@.len() - i,
    {
        let s = log[i].summary();
        let ghost before = views(out@);
        out.push(s);
        assert(views(out@) =~= before.push(s@));
        assert(log@.subrange(start as int, i + 1).map_values(|e: LogEntry| entry_summary(e)) =~= log@.subrange(start as int, i as int).map_values(|e: LogEntry| entry_summary(e)).push(entry_summary(log@[i as int])));
        i += 1;
    }
    assert(log@.subrange(start as int, log@.len() as int) =~= log@.skip(start as int));
    out
}

// ---------------------------------------------------------------------------
// Classifying tool calls
// ---------------------------------------------------------------------------

/// A string argument, empty when absent.
pub open spec fn arg_text(args: JsonTree, key: Seq<char>) -> Seq<char> {
    match str_member(args, key) {
        Some(s) => s,
        None => Seq::empty(),
    }
}

/// What a tool call would do, for the permission matrix.
pub open spec fn classify_spec(c: CallView) -> Action {
    let l = unicode_lowercase(c.tool);
    if l == "read"@ || l == "glob"@ || l == "grep"@ || l == "observe"@ || l == "observation"@ || l == "goal"@
        || l == "plan"@ || l == "askuserquestion"@ || l == "slashcommand"@ {
        Action::ReadFile
    } else if l == "websearch"@ || l == "webfetch"@ {
        Action::BrowserRead
    } else if l == "write"@ {
        if bool_member(c.args, "overwrite"@) == Some(true) { Action::WriteFile } else { Action::CreateFile }
    } else if l == "edit"@ {
        Action::WriteFile
    } else if l == "bash"@ {
        classify_bash_spec(arg_text(c.args, "command"@))
    } else if l == "monitor"@ {
        let a = arg_text(c.args, "action"@);
        if a == "read"@ || (a.len() == 0 && get(c.args, "command"@) is None) {
            Action::RunReadonlyCmd
        } else {
            Action::RunProjectCmd
        }
    } else if is_computer_use(l) {
        let a = unicode_lowercase(arg_text(c.args, "action"@));
        if a == "screenshot"@ || a == "state"@ || a == "open"@ {
            Action::ComputerView
        } else {
            Action::ComputerControl
        }
    } else if l == "mcp"@ {
        let a = unicode_lowercase(arg_text(c.args, "action"@));
        if a == "list"@ || a == "tools"@ { Action::ReadFile } else { Action::UseMcp }
    } else {
        Action::UseApi
    }
}

fn arg_text_exec<'a>(args: &'a Json, key: &str) -> (s: &'a str)
    ensures
        s@ == arg_text(args@, key@),
{
    match get_str(args, key) {
        Some(s) => s,
        None => {
            proof {
                reveal_strlit("");
            }
            ""
        },
    }
}

fn lowered(s: &str) -> (out: Vec<char>)
    ensures
        out@ == unicode_lowercase(s@),
{
    let l = to_lowercase(s);
    chars_of(l.as_str())
}

/// What a tool call would do, for the permission matrix.
pub fn classify(call: &ToolCall) -> (a: Action)
    ensures
        a == classify_spec(call_view(*call)),
{
    let lc = lowered(call.tool.as_str());
    let l = lc.as_slice();
    if chars_eq_str(l, "read") || chars_eq_str(l, "glob") || chars_eq_str(l, "grep") || chars_eq_str(l, "observe")
        || chars_eq_str(l, "observation") || chars_eq_str(l, "goal") || chars_eq_str(l, "plan")
        || chars_eq_str(l, "askuserquestion") || chars_eq_str(l, "slashcommand") {
        Action::ReadFile
    } else if chars_eq_str(l, "websearch") || chars_eq_str(l, "webfetch") {
        Action::BrowserRead
    } else if chars_eq_str(l, "write") {
        let over = match call.args.get("overwrite") {
            Some(v) => v.as_bool(),
            None => None,
        };
        match over {
            Some(true) => Action::WriteFile,
            _ => Action::CreateFile,
        }
    } else if chars_eq_str(l, "edit") {
        Action::WriteFile
    } else if chars_eq_str(l, "bash") {
        classify_bash(arg_text_exec(&call.args, "command"))
    } else if chars_eq_str(l, "monitor") {
        let a = chars_of(arg_text_exec(&call.args, "action"));
        if chars_eq_str(a.as_slice(), "read") || (a.len() == 0 && call.args.get("command").is_none()) {
            Action::RunReadonlyCmd
        } else {
            Action::RunProjectCmd
        }
    } else if chars_eq_str(l, "computeruse") || chars_eq_str(l, "computer_use") || chars_eq_str(l, "computer-use")
        || chars_eq_str(l, "computer use") {
        let a = lowered(arg_text_exec(&call.args, "action"));
        if chars_eq_str(a.as_slice(), "screenshot") || chars_eq_str(a.as_slice(), "state") || chars_eq_str(a.as_slice(), "open") {
            Action::ComputerView
        } else {
            Action::ComputerControl
        }
    } else if chars_eq_str(l, "mcp") {
        let a = lowered(arg_text_exec(&call.args, "action"));
        if chars_eq_str(a.as_slice(), "list") || chars_eq_str(a.as_slice(), "tools") {
            Action::ReadFile
        } else {
            Action::UseMcp
        }
    } else {
        Action::UseApi
    }
}

/// What a tool call acts on, for the audit log: its path, command, pattern,
/// query, URL, action or server/tool, else its first argument.
pub open spec fn call_target_spec(c: CallView) -> Seq<char> {
    let l = unicode_lowercase(c.tool);
    if l == "read"@ || l == "write"@ || l == "edit"@ {
        arg_text(c.args, "path"@)
    } else if l == "bash"@ {
        arg_text(c.args, "command"@)
    } else if l == "glob"@ || l == "grep"@ {
        arg_text(c.args, "pattern"@)
    } else if l == "websearch"@ {
        arg_text(c.args, "query"@)
    } else if l == "webfetch"@ {
        arg_text(c.args, "url"@)
    } else if l == "monitor"@ {
        arg_text(c.args, "action"@) + " "@ + arg_text(c.args, "command"@)
    } else if is_computer_use(l) {
        arg_text(c.args, "action"@)
    } else if l == "mcp"@ {
        arg_text(c.args, "server"@) + "/"@ + arg_text(c.args, "name"@)
    } else {
        match c.args {
            JsonTree::Object(ms) => if ms.len() > 0 {
                match as_str(ms[0].1) {
                    Some(s) => s,
                    None => Seq::empty(),
                }
            } else {
                Seq::empty()
            },
            _ => Seq::empty(),
        }
    }
}

fn joined_args(args: &Json, a: &str, sep: &str, b: &str) -> (out: String)
    ensures
        out@ == arg_text(args@, a@) + sep@ + arg_text(args@, b@),
{
    let mut v = chars_of(arg_text_exec(args, a));
    extend_str(&mut v, sep);
    extend_str(&mut v, arg_text_exec(args, b));
    string_of(v.as_slice())
}

/// What a tool call acts on, for the audit log.
pub fn call_target(call: &ToolCall) -> (t: String)
    ensures
        t@ == call_target_spec(call_view(*call)),
{
    let lc = lowered(call.tool.as_str());
    let l = lc.as_slice();
    let args = &call.args;
    if chars_eq_str(l, "read") || chars_eq_str(l, "write") || chars_eq_str(l, "edit") {
        String::from_str(arg_text_exec(args, "path"))
    } else if chars_eq_str(l, "bash") {
        String::from_str(arg_text_exec(args, "command"))
    } else if chars_eq_str(l, "glob") || chars_eq_str(l, "grep") {
        String::from_str(arg_text_exec(args, "pattern"))
    } else if chars_eq_str(l, "websearch") {
        String::from_str(arg_text_exec(args, "query"))
    } else if chars_eq_str(l, "webfetch") {
        String::from_str(arg_text_exec(args, "url"))
    } else if chars_eq_str(l, "monitor") {
        joined_args(args, "action", " ", "command")
    } else if chars_eq_str(l, "computeruse") || chars_eq_str(l, "computer_use") || chars_eq_str(l, "computer-use")
        || chars_eq_str(l, "computer use") {
        String::from_str(arg_text_exec(args, "action"))
    } else if chars_eq_str(l, "mcp") {
        joined_args(args, "server", "/", "name")
    } else {
        match args {
            Json::Object(ms) => {
                proof {
                    crate::json::lemma_members_of(ms@);
                }
                if ms.len() > 0 {
                    match ms[0].1.as_str() {
                        Some(s) => String::from_str(s),
                        None => String::new(),
                    }
                } else {
                    String::new()
                }
            },
            _ => String::new(),
        }
    }
}

// ---------------------------------------------------------------------------
// Checking calls
// ---------------------------------------------------------------------------

/// What the guard says of a call before anyone is asked.
pub enum GateStep {
    Allowed,
    Refused(String),
    /// The user must choose; the action is what would be allowed.
    NeedsAnswer(Action),
}

/// What the user chose when asked.
#[derive(Clone, Copy, PartialEq, Eq, Debug, Structural)]
pub enum Approval {
    Once,
    Always,
    Deny,
    /// Switch to another mode (none when the user's choice named none).
    Switch(Option<Mode>),
}

/// The choice a line of input names at the approval prompt: 1 to 4, or
/// `allow`; anything else denies.
pub open spec fn approval_spec(input: Seq<char>) -> Approval {
    let t = trim(input);
    if t == "1"@ {
        Approval::Once
    } else if t == "2"@ {
        Approval::Always
    } else if t == "3"@ {
        Approval::Deny
    } else if t == "4"@ {
        Approval::Switch(None)
    } else if eq_ignore_ascii_case(t, "allow"@) {
        Approval::Once
    } else {
        Approval::Deny
    }
}

/// Read the answer at the approval prompt (a mode switch names its mode in
/// a second answer, see [`switch_choice`]).
pub fn approval_choice(input: &str) -> (a: Approval)
    ensures
        a == approval_spec(input@),
{
    let t = trim_str(input);
    let x = t.as_slice();
    if chars_eq_str(x, "1") {
        Approval::Once
    } else if chars_eq_str(x, "2") {
        Approval::Always
    } else if chars_eq_str(x, "3") {
        Approval::Deny
    } else if chars_eq_str(x, "4") {
        Approval::Switch(None)
    } else if crate::text::eq_ignore_case(x, "allow") {
        Approval::Once
    } else {
        Approval::Deny
    }
}

/// The mode a line of input names at the mode-switch prompt.
pub open spec fn switch_spec(input: Seq<char>) -> Option<Mode> {
    let t = trim(input);
    if t == "1"@ || t == "manual"@ {
        Some(Mode::Manual)
    } else if t == "2"@ || t == "assisted"@ {
        Some(Mode::Assisted)
    } else if t == "3"@ || t == "auto"@ {
        Some(Mode::Auto)
    } else {
        None
    }
}

/// Read the answer at the mode-switch prompt; none keeps the current mode.
pub fn switch_choice(input: &str) -> (m: Option<Mode>)
    ensures
        m == switch_spec(input@),
{
    let t = trim_str(input);
    let x = t.as_slice();
    if chars_eq_str(x, "1") || chars_eq_str(x, "manual") {
        Some(Mode::Manual)
    } else if chars_eq_str(x, "2") || chars_eq_str(x, "assisted") {
        Some(Mode::Assisted)
    } else if chars_eq_str(x, "3") || chars_eq_str(x, "auto") {
        Some(Mode::Auto)
    } else {
        None
    }
}

/// The entry the guard logs for a call.
pub open spec fn logged(e: LogEntry, t: Seq<char>, mode: Mode, action: Action, c: CallView, result: Decision, user: Option<Seq<char>>) -> bool {
    &&& e.timestamp@ == t
    &&& e.mode == mode
    &&& e.action == action
    &&& e.tool@ == c.tool
    &&& e.target@ == call_target_spec(c)
    &&& e.result == result
    &&& match (e.user_decision, user) {
        (Some(a), Some(b)) => a@ == b,
        (None, None) => true,
        _ => false,
    }
}

pub open spec fn blocked_message(a: Action, m: Mode) -> Seq<char> {
    "action blocked: "@ + action_label(a) + " is never allowed in "@ + mode_label(m) + " mode"@
}

fn entry_for(call: &ToolCall, timestamp: &str, mode: Mode, action: Action, result: Decision, user: Option<&str>) -> (e: LogEntry)
    ensures
        logged(e, timestamp@, mode, action, call_view(*call), result, match user { Some(u) => Some(u@), None => None }),
{
    LogEntry {
        timestamp: String::from_str(timestamp),
        mode,
        action,
        tool: call.tool.clone(),
        target: call_target(call),
        result,
        user_decision: match user {
            Some(u) => Some(String::from_str(u)),
            None => None,
        },
    }
}

fn cat2(a: &str, b: &str) -> (s: String)
    ensures
        s@ == a@ + b@,
{
    let mut v = chars_of(a);
    extend_str(&mut v, b);
    string_of(v.as_slice())
}

fn cat5(a: &str, b: &str, c: &str, d: &str, e: &str) -> (s: String)
    ensures
        s@ == a@ + b@ + c@ + d@ + e@,
{
    let mut v = chars_of(a);
    extend_str(&mut v, b);
    extend_str(&mut v, c);
    extend_str(&mut v, d);
    extend_str(&mut v, e);
    string_of(v.as_slice())
}

/// The decision for `action` before asking: the matrix, with a per-task
/// allowance turning an Ask into an Allow.
pub open spec fn decided(g: PermissionGuard, action: Action) -> Decision {
    if check_spec(g.mode, action) == Decision::Ask && g.task_allowed@.contains(action) {
        Decision::Allow
    } else {
        check_spec(g.mode, action)
    }
}

/// `after`'s log is `before`'s with one entry more, and that entry is `e`.
pub open spec fn log_grew(before: Seq<LogEntry>, after: Seq<LogEntry>) -> bool {
    after.len() == before.len() + 1 && after.drop_last() =~= before
}

/// What answering the approval prompt comes to: the mode afterwards, the
/// decision and note logged, and the outcome.
pub open spec fn answer_spec(mode: Mode, action: Action, approval: Approval) -> (Mode, Decision, Seq<char>, Result<(), Seq<char>>) {
    match approval {
        Approval::Once => (mode, Decision::Ask, "allow once"@, Ok(())),
        Approval::Always => (mode, Decision::Ask, "always allow"@, Ok(())),
        Approval::Deny => (mode, Decision::Ask, "denied"@, Err("action denied by user: "@ + action_label(action))),
        Approval::Switch(m) => {
            let now = match m {
                Some(x) => x,
                None => mode,
            };
            match check_spec(now, action) {
                Decision::Allow => (now, Decision::Allow, "mode switched"@, Ok(())),
                Decision::Block => (now, Decision::Block, "blocked after switch"@, Err(
                    "action blocked: "@ + action_label(action) + " is not allowed in "@ + mode_label(now) + " mode"@,
                )),
                Decision::Ask => (now, Decision::Ask, "denied after switch"@, Err("action denied: "@ + action_label(action))),
            }
        },
    }
}

impl PermissionGuard {
    /// A guard in `mode` with an empty log, storing its mode at `config_path`.
    pub fn new(mode: Mode, config_path: String) -> (g: Self)
        ensures
            g.mode == mode,
            g.log@.len() == 0,
            g.task_allowed@.len() == 0,
            g.config_path@ == config_path@,
            !g.stop_requested,
            !g.save_pending,
    {
        PermissionGuard {
            mode,
            log: Vec::new(),
            task_allowed: Vec::new(),
            config_path,
            stop_requested: false,
            save_pending: false,
        }
    }

    /// Switch modes: per-task allowances are dropped and the new mode is marked
    /// for saving.
    pub fn set_mode(&mut self, mode: Mode)
        ensures
            final(self).mode == mode,
            final(self).task_allowed@.len() == 0,
            final(self).save_pending,
            final(self).log@ == old(self).log@,
            final(self).config_path@ == old(self).config_path@,
            final(self).stop_requested == old(self).stop_requested,
    {
        self.mode = mode;
        self.task_allowed = Vec::new();
        self.save_pending = true;
    }

    fn status_summary(&self) -> (out: Vec<char>)
        ensures
            out@ == status_spec(self.mode, self.log@),
    {
        let recent = last_summaries_exec(&self.log, 5);
        let mut v = chars_of("permission mode: ");
        extend_str(&mut v, self.mode.label());
        extend_str(&mut v, " — ");
        extend_str(&mut v, self.mode.subtitle());
        extend_str(&mut v, "\nrecent actions:\n  ");
        if recent.len() == 0 {
            extend_str(&mut v, "  (none yet)");
        } else {
            let j = join_parts(&recent, "\n  ");
            extend_chars(&mut v, j.as_slice());
        }
        v
    }

    fn log_summary(&self) -> (out: Vec<char>)
        ensures
            out@ == log_spec(self.log@),
    {
        if self.log.len() == 0 {
            return chars_of("no actions logged yet");
        }
        let entries = last_summaries_exec(&self.log, 20);
        let mut v = chars_of("permission log (last ");
        let n = decimal_string(entries.len() as u64);
        extend_chars(&mut v, n.as_slice());
        extend_str(&mut v, "):\n");
        let j = join_parts(&entries, "\n");
        extend_chars(&mut v, j.as_slice());
        v
    }

    fn info(&self) -> (out: Vec<char>)
        ensures
            out@ == info_spec(self.mode, self.config_path@),
    {
        let mut v = chars_of("Agent Permission Modes:\n\n  Manual   — Ask before every action\n    Allow: thinking, planning, chat only\n    Ask:   all tool actions (read, edit, run, browse, etc.)\n    Block: dangerous system actions\n\n  Assisted — Auto safe actions, ask before edits  [default]\n    Allow: read files, search, web browse, read-only commands, screenshots\n    Ask:   edits, creates, deletes, project commands, installs, MCP, computer control\n    Block: dangerous system actions\n\n  Auto     — Work without asking inside approved workspace\n    Allow: all normal workspace actions (read, write, run, browse, MCP)\n    Ask:   (none)\n    Block: admin/sudo commands, outside workspace access, secrets, payments,\n           system settings, sending emails/messages\n\nCurrent mode: ");
        extend_str(&mut v, self.mode.label());
        extend_str(&mut v, " — ");
        extend_str(&mut v, self.mode.subtitle());
        extend_str(&mut v, "\nStored at:    ");
        extend_str(&mut v, self.config_path.as_str());
        v
    }

    /// Handle `/permissions [manual|assisted|auto|log|stop|info]`; `None` when
    /// `input` is not that command.
    pub fn command_output(&mut self, input: &str) -> (out: Option<String>)
        ensures
            match out {
                Some(s) => command_spec(old(self).mode, old(self).log@, old(self).config_path@, input@) == Some(s@),
                None => command_spec(old(self).mode, old(self).log@, old(self).config_path@, input@) is None,
            },
            final(self).mode == (match command_mode(input@) { Some(m) => m, None => old(self).mode }),
            command_mode(input@) is Some ==> final(self).task_allowed@.len() == 0 && final(self).save_pending,
            command_mode(input@) is None ==> final(self).task_allowed@ == old(self).task_allowed@
                && final(self).save_pending == old(self).save_pending,
            final(self).stop_requested == (old(self).stop_requested || command_stops(input@)),
            final(self).log@ == old(self).log@,
            final(self).config_path@ == old(self).config_path@,
    {
        proof {
            reveal_strlit("manual");
            reveal_strlit("assisted");
            reveal_strlit("auto");
            reveal_strlit("log");
            reveal_strlit("stop");
            reveal_strlit("info");
            assert("manual"@.len() == 6 && "assisted"@.len() == 8 && "auto"@.len() == 4);
            assert("log"@.len() == 3 && "stop"@.len() == 4 && "info"@.len() == 4);
            assert("auto"@[0] != "stop"@[0] && "info"@[0] != "stop"@[0]);
        }
        let t = trim_str(input);
        if chars_eq_str(t.as_slice(), "/permissions") {
            let s = self.status_summary();
            return Some(string_of(s.as_slice()));
        }
        if !starts_with_str(t.as_slice(), "/permissions ") {
            return None;
        }
        let p = chars_of("/permissions ");
        let rest0 = slice_chars(t.as_slice(), p.len(), t.len());
        assert(rest0@ =~= t@.skip("/permissions "@.len() as int));
        let rest = trim_chars(rest0.as_slice());
        if chars_eq_str(rest.as_slice(), "manual") {
            assert("manual"@.len() == 6);
            assert("stop"@.len() == 4);
            assert(!command_stops(input@));
            self.set_mode(Mode::Manual);
            let mut v = chars_of("permission mode set to ");
            extend_str(&mut v, Mode::Manual.label());
            Some(string_of(v.as_slice()))
        } else if chars_eq_str(rest.as_slice(), "assisted") {
            assert(!command_stops(input@));
            self.set_mode(Mode::Assisted);
            let mut v = chars_of("permission mode set to ");
            extend_str(&mut v, Mode::Assisted.label());
            Some(string_of(v.as_slice()))
        } else if chars_eq_str(rest.as_slice(), "auto") {
            assert(!command_stops(input@));
            self.set_mode(Mode::Auto);
            let mut v = chars_of("permission mode set to ");
            extend_str(&mut v, Mode::Auto.label());
            Some(string_of(v.as_slice()))
        } else if chars_eq_str(rest.as_slice(), "log") {
            assert(!command_stops(input@));
            let s = self.log_summary();
            Some(string_of(s.as_slice()))
        } else if chars_eq_str(rest.as_slice(), "stop") {
            assert(t@ != "/permissions"@);
            assert("/permissions "@.is_prefix_of(t@));
            assert(trim(t@.skip("/permissions "@.len() as int)) == "stop"@);
            self.stop_requested = true;
            assert(command_stops(input@));
            Some(String::from_str("stop requested — agent will halt after current action"))
        } else if chars_eq_str(rest.as_slice(), "info") {
            assert(!command_stops(input@));
            let s = self.info();
            Some(string_of(s.as_slice()))
        } else {
            assert(!command_stops(input@));
            let mut v = chars_of("unknown: ");
            extend_chars(&mut v, rest.as_slice());
            extend_str(&mut v, "\nusage: /permissions [manual|assisted|auto|log|stop|info]");
            Some(string_of(v.as_slice()))
        }
    }

    /// Whether the action has been allowed for the rest of the current task.
    pub fn task_allows(&self, action: Action) -> (b: bool)
        ensures
            b == self.task_allowed@.contains(action),
    {
        let mut i: usize = 0;
        while i < self.task_allowed.len()
            invariant
                i <= self.task_allowed@.len(),
                forall|j: int| 0 <= j < i ==> self.task_allowed@[j] != action,
            decreases self.task_allowed@.len() - i,
        {
            if self.task_allowed[i] == action {
                return true;
            }
            i += 1;
        }
        false
    }

    /// The decision for `action` before asking anyone: the matrix, with an
    /// "always allow for the current task" choice turning an Ask into an Allow.
    pub fn decide(&self, action: Action) -> (d: Decision)
        ensures
            d == (if check_spec(self.mode, action) == Decision::Ask && self.task_allowed@.contains(action) {
                Decision::Allow
            } else {
                check_spec(self.mode, action)
            }),
    {
        let d = check(self.mode, action);
        if d == Decision::Ask && self.task_allows(action) {
            Decision::Allow
        } else {
            d
        }
    }

    /// Remember that `action` is allowed for the rest of the current task.
    pub fn allow_for_task(&mut self, action: Action)
        ensures
            final(self).task_allowed@.contains(action),
            forall|a: Action| old(self).task_allowed@.contains(a) ==> final(self).task_allowed@.contains(a),
            forall|a: Action| final(self).task_allowed@.contains(a) ==> a == action || old(self).task_allowed@.contains(a),
            final(self).mode == old(self).mode,
            final(self).log@ == old(self).log@,
            final(self).config_path@ == old(self).config_path@,
            final(self).stop_requested == old(self).stop_requested,
            final(self).save_pending == old(self).save_pending,
    {
        if !self.task_allows(action) {
            self.task_allowed.push(action);
            assert(self.task_allowed@.last() == action);
        }
        assert forall|a: Action| final(self).task_allowed@.contains(a) implies a == action || old(self).task_allowed@.contains(a) by {
            if a != action {
                let k = choose|k: int| 0 <= k < self.task_allowed@.len() && self.task_allowed@[k] == a;
                assert(old(self).task_allowed@[k] == a);
            }
        }
        assert forall|a: Action| old(self).task_allowed@.contains(a) implies final(self).task_allowed@.contains(a) by {
            let k = choose|k: int| 0 <= k < old(self).task_allowed@.len() && old(self).task_allowed@[k] == a;
            assert(self.task_allowed@[k] == a);
        }
    }


    /// Gate a tool call at `timestamp`. A stop request refuses every call.
    /// Otherwise the matrix decides (with per-task allowances): an allowed or
    /// blocked call is logged and answered; one that needs the user's answer
    /// is left for [`PermissionGuard::answer`].
    pub fn gate(&mut self, call: &ToolCall, timestamp: &str) -> (r: GateStep)
        ensures
            final(self).mode == old(self).mode,
            final(self).task_allowed@ == old(self).task_allowed@,
            final(self).config_path@ == old(self).config_path@,
            final(self).stop_requested == old(self).stop_requested,
            final(self).save_pending == old(self).save_pending,
            ({
                let a = classify_spec(call_view(*call));
                if old(self).stop_requested {
                    &&& r matches GateStep::Refused(m) && m@ == "agent stopped by user"@
                    &&& final(self).log@ == old(self).log@
                } else {
                    match decided(*old(self), a) {
                        Decision::Allow => {
                            &&& r is Allowed
                            &&& log_grew(old(self).log@, final(self).log@)
                            &&& logged(final(self).log@.last(), timestamp@, old(self).mode, a, call_view(*call), Decision::Allow, None)
                        },
                        Decision::Block => {
                            &&& r matches GateStep::Refused(m) && m@ == blocked_message(a, old(self).mode)
                            &&& log_grew(old(self).log@, final(self).log@)
                            &&& logged(final(self).log@.last(), timestamp@, old(self).mode, a, call_view(*call), Decision::Block, None)
                        },
                        Decision::Ask => r == GateStep::NeedsAnswer(a) && final(self).log@ == old(self).log@,
                    }
                }
            }),
    {
        if self.stop_requested {
            return GateStep::Refused(String::from_str("agent stopped by user"));
        }
        let action = classify(call);
        let decision = self.decide(action);
        match decision {
            Decision::Allow => {
                let e = entry_for(call, timestamp, self.mode, action, Decision::Allow, None);
                self.record(e);
                GateStep::Allowed
            },
            Decision::Block => {
                let e = entry_for(call, timestamp, self.mode, action, Decision::Block, None);
                self.record(e);
                GateStep::Refused(cat5("action blocked: ", action.label(), " is never allowed in ", self.mode.label(), " mode"))
            },
            Decision::Ask => GateStep::NeedsAnswer(action),
        }
    }

    /// Settle a call the guard left to the user, with the user's `approval`:
    /// allow once, allow the action for the rest of the task, deny, or
    /// switch modes and decide again (what is still to ask is denied).
    pub fn answer(&mut self, call: &ToolCall, timestamp: &str, approval: Approval) -> (r: Result<(), String>)
        ensures
            ({
                let a = classify_spec(call_view(*call));
                let (mode, d, note, out) = answer_spec(old(self).mode, a, approval);
                &&& final(self).mode == mode
                &&& log_grew(old(self).log@, final(self).log@)
                &&& logged(final(self).log@.last(), timestamp@, mode, a, call_view(*call), d, Some(note))
                &&& match (r, out) {
                    (Ok(()), Ok(())) => true,
                    (Err(e), Err(m)) => e@ == m,
                    _ => false,
                }
                &&& approval == Approval::Always ==> final(self).task_allowed@.contains(a)
                    && forall|x: Action| #[trigger] old(self).task_allowed@.contains(x) ==> final(self).task_allowed@.contains(x)
                &&& approval matches Approval::Switch(Some(_)) ==> final(self).task_allowed@.len() == 0 && final(self).save_pending
                &&& !(approval matches Approval::Switch(Some(_))) && approval != Approval::Always ==> final(self).task_allowed@ == old(self).task_allowed@
            }),
            final(self).config_path@ == old(self).config_path@,
            final(self).stop_requested == old(self).stop_requested,
    {
        let action = classify(call);
        match approval {
            Approval::Once => {
                let e = entry_for(call, timestamp, self.mode, action, Decision::Ask, Some("allow once"));
                self.record(e);
                Ok(())
            },
            Approval::Always => {
                self.allow_for_task(action);
                let e = entry_for(call, timestamp, self.mode, action, Decision::Ask, Some("always allow"));
                self.record(e);
                Ok(())
            },
            Approval::Deny => {
                let e = entry_for(call, timestamp, self.mode, action, Decision::Ask, Some("denied"));
                self.record(e);
                Err(cat2("action denied by user: ", action.label()))
            },
            Approval::Switch(m) => {
                match m {
                    Some(mode) => self.set_mode(mode),
                    None => {},
                }
                match check(self.mode, action) {
                    Decision::Allow => {
                        let e = entry_for(call, timestamp, self.mode, action, Decision::Allow, Some("mode switched"));
                        self.record(e);
                        Ok(())
                    },
                    Decision::Block => {
                        let e = entry_for(call, timestamp, self.mode, action, Decision::Block, Some("blocked after switch"));
                        self.record(e);
                        Err(cat5("action blocked: ", action.label(), " is not allowed in ", self.mode.label(), " mode"))
                    },
                    Decision::Ask => {
                        let e = entry_for(call, timestamp, self.mode, action, Decision::Ask, Some("denied after switch"));
                        self.record(e);
                        Err(cat2("action denied: ", action.label()))
                    },
                }
            },
        }
    }

    /// Append an entry to the audit log.
    pub fn record(&mut self, entry: LogEntry)
        ensures
            final(self).log@ == old(self).log@.push(entry),
            final(self).mode == old(self).mode,
            final(self).task_allowed@ == old(self).task_allowed@,
            final(self).config_path@ == old(self).config_path@,
            final(self).stop_requested == old(self).stop_requested,
            final(self).save_pending == old(self).save_pending,
    {
        self.log.push(entry);
    }
}

/// An "always allow" choice never lets a blocked action through: the guard
/// only ever turns an Ask into an Allow.
pub proof fn law_task_allowance_never_unblocks(g: PermissionGuard, action: Action)
    requires
        check_spec(g.mode, action) == Decision::Block,
    ensures
        (if check_spec(g.mode, action) == Decision::Ask && g.task_allowed@.contains(action) {
            Decision::Allow
        } else {
            check_spec(g.mode, action)
        }) == Decision::Block,
{
}

/// `s` cut to `max` characters, the last becoming `…` when it was longer.
pub fn truncate_str(s: &str, max: usize) -> (out: String)
    ensures
        out@ == truncate_ellipsis(s@, max as nat),
{
    let v = chars_of(s);
    let t = truncate_with_ellipsis(v.as_slice(), max);
    string_of(t.as_slice())
}

} // verus!

//! User-defined lifecycle hooks: shell commands configured for before a tool
//! call, after it, and at the end of a turn. This module decides which
//! commands run with which environment, folds their results into an outcome
//! (a failing pre-tool hook blocks the call), and assembles a hook's output;
//! the platform layer runs the processes.
use vstd::prelude::*;
use crate::text::{chars_of, decimal, extend_chars, extend_str, string_of, trim, trim_str};

verus! {

broadcast use vstd::string::group_string_axioms;

/// The configured commands for each lifecycle point.
pub struct HookConfig {
    pub pre_tool: Vec<String>,
    pub post_tool: Vec<String>,
    pub stop: Vec<String>,
}

/// The hooks of one workspace.
pub struct Hooks {
    workspace: String,
    config: HookConfig,
}

/// What the pre-tool hooks decided.
pub struct HookOutcome {
    /// A pre-tool hook vetoed the tool call.
    pub blocked: bool,
    /// Lines to surface to the model (hook output, or the block reason).
    pub messages: Vec<String>,
}

/// One command to run, with the environment it receives.
pub struct HookRun {
    pub command: String,
    pub env: Vec<(String, String)>,
}

pub open spec fn env_view(env: Seq<(String, String)>) -> Seq<(Seq<char>, Seq<char>)> {
    env.map_values(|p: (String, String)| (p.0@, p.1@))
}

pub open spec fn strings_view(v: Seq<String>) -> Seq<Seq<char>> {
    v.map_values(|s: String| s@)
}

/// Each command paired with the same environment.
pub open spec fn runs_match(runs: Seq<HookRun>, commands: Seq<String>, env: Seq<(Seq<char>, Seq<char>)>) -> bool {
    &&& runs.len() == commands.len()
    &&& forall|i: int| 0 <= i < runs.len() ==> (#[trigger] runs[i]).command@ == commands[i]@ && env_view(runs[i].env@) == env
}

/// The first `n` characters of `s` (all of it when shorter).
pub open spec fn take_chars(s: Seq<char>, n: nat) -> Seq<char> {
    if s.len() <= n { s } else { s.take(n as int) }
}

fn pair(k: &str, v: &str) -> (p: (String, String))
    ensures
        p.0@ == k@,
        p.1@ == v@,
{
    (String::from_str(k), String::from_str(v))
}

fn runs_for(commands: &Vec<String>, env: &Vec<(String, String)>) -> (out: Vec<HookRun>)
    ensures
        runs_match(out@, commands@, env_view(env@)),
{
    let mut out: Vec<HookRun> = Vec::new();
    let mut i: usize = 0;
    while i < commands.len()
        invariant
            i <= commands@.len(),
            out@.len() == i,
            forall|j: int| 0 <= j < i ==> (#[trigger] out@[j]).command@ == commands@[j]@ && env_view(out@[j].env@) == env_view(env@),
        decreases commands@.len() - i,
    {
        let e = clone_env(env);
        out.push(HookRun { command: commands[i].clone(), env: e });
        i += 1;
    }
    out
}

fn clone_env(env: &Vec<(String, String)>) -> (out: Vec<(String, String)>)
    ensures
        env_view(out@) == env_view(env@),
{
    let mut out: Vec<(String, String)> = Vec::new();
    let mut i: usize = 0;
    while i < env.len()
        invariant
            i <= env@.len(),
            out@.len() == i,
            forall|j: int| 0 <= j < i ==> (#[trigger] out@[j]).0@ == env@[j].0@ && out@[j].1@ == env@[j].1@,
        decreases env@.len() - i,
    {
        let (k, v) = &env[i];
        out.push((k.clone(), v.clone()));
        i += 1;
    }
    assert(env_view(out@) =~= env_view(env@));
    out
}

impl HookConfig {
    pub fn empty() -> (c: HookConfig)
        ensures
            c.pre_tool@.len() == 0,
            c.post_tool@.len() == 0,
            c.stop@.len() == 0,
    {
        HookConfig { pre_tool: Vec::new(), post_tool: Vec::new(), stop: Vec::new() }
    }
}

impl Hooks {
    pub closed spec fn pre_commands(&self) -> Seq<String> {
        self.config.pre_tool@
    }

    pub closed spec fn post_commands(&self) -> Seq<String> {
        self.config.post_tool@
    }

    pub closed spec fn stop_commands(&self) -> Seq<String> {
        self.config.stop@
    }

    pub closed spec fn workspace_path(&self) -> Seq<char> {
        self.workspace@
    }

    /// The hooks of `workspace`, from its parsed `.biscuits/hooks.json` (an
    /// empty configuration when the file is missing or unreadable).
    pub fn open(workspace: String, config: HookConfig) -> (h: Hooks)
        ensures
            h.workspace_path() == workspace@,
            h.pre_commands() == config.pre_tool@,
            h.post_commands() == config.post_tool@,
            h.stop_commands() == config.stop@,
    {
        Hooks { workspace, config }
    }

    /// The directory hooks run in.
    pub fn workspace(&self) -> (s: &str)
        ensures
            s@ == self.workspace_path(),
    {
        self.workspace.as_str()
    }

    /// Whether any hooks are configured.
    pub fn active(&self) -> (b: bool)
        ensures
            b == (self.pre_commands().len() > 0 || self.post_commands().len() > 0
                || self.stop_commands().len() > 0),
    {
        self.config.pre_tool.len() != 0 || self.config.post_tool.len() != 0
            || self.config.stop.len() != 0
    }

    /// The pre-tool hooks to run, in order, each told the event, the tool and
    /// its arguments (as JSON text). Feed each result to
    /// [`HookOutcome::record_pre_tool`] and stop when it says so.
    pub fn pre_tool(&self, tool: &str, args_json: &str) -> (runs: Vec<HookRun>)
        ensures
            runs_match(runs@, self.pre_commands(), seq![
                ("BISCUITS_HOOK_EVENT"@, "pre_tool"@),
                ("BISCUITS_TOOL"@, tool@),
                ("BISCUITS_TOOL_ARGS"@, args_json@),
            ]),
    {
        let env = vec![
            pair("BISCUITS_HOOK_EVENT", "pre_tool"),
            pair("BISCUITS_TOOL", tool),
            pair("BISCUITS_TOOL_ARGS", args_json),
        ];
        assert(env_view(env@) =~= seq![
            ("BISCUITS_HOOK_EVENT"@, "pre_tool"@),
            ("BISCUITS_TOOL"@, tool@),
            ("BISCUITS_TOOL_ARGS"@, args_json@),
        ]);
        runs_for(&self.config.pre_tool, &env)
    }

    /// The post-tool hooks to run, each told the tool and the first 8000
    /// characters of its result.
    pub fn post_tool(&self, tool: &str, result: &str) -> (runs: Vec<HookRun>)
        ensures
            runs_match(runs@, self.post_commands(), seq![
                ("BISCUITS_HOOK_EVENT"@, "post_tool"@),
                ("BISCUITS_TOOL"@, tool@),
                ("BISCUITS_TOOL_RESULT"@, take_chars(result@, 8000)),
            ]),
    {
        let r = chars_of(result);
        let n: usize = if r.len() <= 8000 { r.len() } else { 8000 };
        let head = crate::text::slice_chars(r.as_slice(), 0, n);
        proof {
            if r@.len() <= 8000 {
                assert(head@ =~= r@);
            }
        }
        let head_s = string_of(head.as_slice());
        let env = vec![
            pair("BISCUITS_HOOK_EVENT", "post_tool"),
            pair("BISCUITS_TOOL", tool),
            pair("BISCUITS_TOOL_RESULT", head_s.as_str()),
        ];
        assert(env_view(env@) =~= seq![
            ("BISCUITS_HOOK_EVENT"@, "post_tool"@),
            ("BISCUITS_TOOL"@, tool@),
            ("BISCUITS_TOOL_RESULT"@, take_chars(result@, 8000)),
        ]);
        runs_for(&self.config.post_tool, &env)
    }

    /// The end-of-turn hooks to run.
    pub fn stop(&self) -> (runs: Vec<HookRun>)
        ensures
            runs_match(runs@, self.stop_commands(), seq![("BISCUITS_HOOK_EVENT"@, "stop"@)]),
    {
        let env = vec![pair("BISCUITS_HOOK_EVENT", "stop")];
        assert(env_view(env@) =~= seq![("BISCUITS_HOOK_EVENT"@, "stop"@)]);
        runs_for(&self.config.stop, &env)
    }
}

/// The message a pre-tool hook result adds: a block notice with the exit code
/// for a failure, the output for a success that printed something.
pub open spec fn pre_tool_message(code: i32, out: Seq<char>) -> Option<Seq<char>> {
    let o = trim(out);
    if code != 0 {
        Some("blocked by pre-tool hook (exit "@ + int_text(code as int) + ")"@ + if o.len() == 0 {
            Seq::empty()
        } else {
            ": "@ + o
        })
    } else if o.len() > 0 {
        Some("pre-tool hook: "@ + o)
    } else {
        None
    }
}

/// A signed integer in decimal.
pub open spec fn int_text(n: int) -> Seq<char> {
    if n < 0 { seq!['-'] + decimal((-n) as nat) } else { decimal(n as nat) }
}

fn int_chars(n: i32) -> (out: Vec<char>)
    ensures
        out@ == int_text(n as int),
{
    if n < 0 {
        let m: u64 = (-(n as i64)) as u64;
        let mut v = vec!['-'];
        let d = crate::text::decimal_string(m);
        extend_chars(&mut v, d.as_slice());
        assert(v@ =~= seq!['-'] + decimal((-(n as int)) as nat));
        v
    } else {
        crate::text::decimal_string(n as u64)
    }
}

impl HookOutcome {
    pub fn new() -> (o: HookOutcome)
        ensures
            !o.blocked,
            o.messages@.len() == 0,
    {
        HookOutcome { blocked: false, messages: Vec::new() }
    }

    /// Fold one pre-tool hook's exit code and output into the outcome;
    /// returns whether the remaining hooks should still run (a failure
    /// blocks the call and ends the run).
    pub fn record_pre_tool(&mut self, code: i32, out: &str) -> (go_on: bool)
        ensures
            go_on == (code == 0),
            final(self).blocked == (old(self).blocked || code != 0),
            strings_view(final(self).messages@) == match pre_tool_message(code, out@) {
                Some(m) => strings_view(old(self).messages@).push(m),
                None => strings_view(old(self).messages@),
            },
    {
        let o = trim_str(out);
        let ghost before = strings_view(self.messages@);
        if code != 0 {
            self.blocked = true;
            let mut v = chars_of("blocked by pre-tool hook (exit ");
            let c = int_chars(code);
            extend_chars(&mut v, c.as_slice());
            extend_str(&mut v, ")");
            let ghost mid = v@;
            if o.len() > 0 {
                extend_str(&mut v, ": ");
                extend_chars(&mut v, o.as_slice());
                assert(v@ =~= mid + (": "@ + o@));
            } else {
                assert(v@ =~= mid + Seq::<char>::empty());
            }
            assert(pre_tool_message(code, out@) == Some(v@));
            self.messages.push(string_of(v.as_slice()));
            assert(strings_view(self.messages@) =~= before.push(v@));
            false
        } else {
            if o.len() > 0 {
                let mut v = chars_of("pre-tool hook: ");
                extend_chars(&mut v, o.as_slice());
                self.messages.push(string_of(v.as_slice()));
                assert(strings_view(self.messages@) =~= before.push(v@));
            }
            true
        }
    }
}

/// A hook's combined output: stdout, then trimmed stderr on its own line when
/// there is any, then a note when the hook timed out.
pub open spec fn combined_output(stdout: Seq<char>, stderr: Seq<char>, timed_out: bool) -> Seq<char> {
    let e = trim(stderr);
    let with_err = if e.len() == 0 {
        stdout
    } else if stdout.len() == 0 {
        e
    } else {
        stdout + seq!['\n'] + e
    };
    if timed_out { with_err + "\n[hook timed out]"@ } else { with_err }
}

/// Combine a hook's stdout and stderr, noting a timeout.
pub fn combine_output(stdout: &str, stderr: &str, timed_out: bool) -> (out: String)
    ensures
        out@ == combined_output(stdout@, stderr@, timed_out),
{
    let mut v = chars_of(stdout);
    let e = trim_str(stderr);
    if e.len() > 0 {
        if v.len() > 0 {
            v.push('\n');
        }
        extend_chars(&mut v, e.as_slice());
    }
    if timed_out {
        extend_str(&mut v, "\n[hook timed out]");
    }
    string_of(v.as_slice())
}

} // verus!

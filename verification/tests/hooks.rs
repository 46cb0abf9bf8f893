use biscuits::hooks::{combine_output, HookConfig, HookOutcome, Hooks};

fn hooks_with(pre: &[&str], post: &[&str], stop: &[&str]) -> Hooks {
    Hooks::open(
        "/tmp".to_string(),
        HookConfig {
            pre_tool: pre.iter().map(|s| s.to_string()).collect(),
            post_tool: post.iter().map(|s| s.to_string()).collect(),
            stop: stop.iter().map(|s| s.to_string()).collect(),
        },
    )
}

#[test]
fn no_hooks_is_inactive() {
    assert!(!Hooks::open("/tmp".to_string(), HookConfig::empty()).active());
    assert!(hooks_with(&[], &[], &["say done"]).active());
}

#[test]
fn nonzero_pre_tool_exit_blocks_the_call() {
    let mut outcome = HookOutcome::new();
    let go_on = outcome.record_pre_tool(3, "nope\n");
    assert!(!go_on);
    assert!(outcome.blocked);
    assert_eq!(outcome.messages, vec!["blocked by pre-tool hook (exit 3): nope".to_string()]);
}

#[test]
fn zero_exit_allows_and_surfaces_output() {
    let mut outcome = HookOutcome::new();
    assert!(outcome.record_pre_tool(0, " looks-fine "));
    assert!(outcome.record_pre_tool(0, "   "));
    assert!(!outcome.blocked);
    assert_eq!(outcome.messages, vec!["pre-tool hook: looks-fine".to_string()]);
    let mut failed = HookOutcome::new();
    failed.record_pre_tool(-1, "");
    assert_eq!(failed.messages, vec!["blocked by pre-tool hook (exit -1)".to_string()]);
}

#[test]
fn runs_carry_their_environment() {
    let hooks = hooks_with(&["./guard.sh"], &["echo a", "echo b"], &["say done"]);
    let pre = hooks.pre_tool("bash", "{\"command\":\"ls\"}");
    assert_eq!(pre.len(), 1);
    assert_eq!(pre[0].command, "./guard.sh");
    assert_eq!(
        pre[0].env,
        vec![
            ("BISCUITS_HOOK_EVENT".to_string(), "pre_tool".to_string()),
            ("BISCUITS_TOOL".to_string(), "bash".to_string()),
            ("BISCUITS_TOOL_ARGS".to_string(), "{\"command\":\"ls\"}".to_string()),
        ]
    );
    let long = "x".repeat(9000);
    let post = hooks.post_tool("read", &long);
    assert_eq!(post.len(), 2);
    assert_eq!(post[1].command, "echo b");
    assert_eq!(post[1].env[2].1.len(), 8000);
    let stop = hooks.stop();
    assert_eq!(stop[0].env, vec![("BISCUITS_HOOK_EVENT".to_string(), "stop".to_string())]);
}

#[test]
fn combined_output_appends_stderr_and_timeout() {
    assert_eq!(combine_output("out", " err \n", false), "out\nerr");
    assert_eq!(combine_output("", "err", true), "err\n[hook timed out]");
    assert_eq!(combine_output("out", "  ", false), "out");
}

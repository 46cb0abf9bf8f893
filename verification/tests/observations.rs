use biscuits::observations::{
    file_observation, file_state, skipped_dir_name, looks_binary, path_less, render_workspace_diff, skip_entry, FileState, ObservationSystem,
    WorkspaceSnapshot, MAX_HASH_BYTES,
};

fn state(len: u64) -> FileState {
    FileState { len, modified_nanos: 1, hash: Some(len) }
}

fn snap(files: &[(&str, u64)]) -> WorkspaceSnapshot {
    let mut s = WorkspaceSnapshot::new();
    for (p, l) in files {
        s.insert(p.to_string(), state(*l));
    }
    s
}

#[test]
fn observes_created_files_after_action() {
    let mut obs = ObservationSystem::new("/w".to_string(), WorkspaceSnapshot::new());
    let before = WorkspaceSnapshot::new();
    let after = snap(&[("created.txt", 5)]);
    let output = obs.after_action("Write", "wrote created.txt".to_string(), before, after);
    assert!(output.contains("<observation tool=\"Write\">"));
    assert!(output.contains("- created: created.txt"));
    assert!(output.contains("wrote created.txt"));
    assert!(output.contains("<terminal_state>not_applicable</terminal_state>"));
}

#[test]
fn observe_changes_updates_the_baseline() {
    let mut obs = ObservationSystem::new("/w".to_string(), WorkspaceSnapshot::new());
    let first = obs.observe_changes(snap(&[("one.txt", 5)]));
    let second = obs.observe_changes(snap(&[("one.txt", 5)]));
    assert!(first.contains("- created: one.txt"));
    assert_eq!(second, "none detected");
}

#[test]
fn diff_lists_are_in_path_order() {
    let before = snap(&[("b", 1), ("a", 1), ("z", 1)]);
    let after = snap(&[("c", 1), ("a", 2), ("b", 1), ("0", 1)]);
    let d = before.diff(&after);
    assert_eq!(d.created, vec!["0".to_string(), "c".to_string()]);
    assert_eq!(d.modified, vec!["a".to_string()]);
    assert_eq!(d.deleted, vec!["z".to_string()]);
    assert_eq!(
        render_workspace_diff(&d),
        "- created: 0\n- created: c\n- modified: a\n- deleted: z"
    );
}

#[test]
fn insert_replaces_and_summary_lists_sorted() {
    let mut s = snap(&[("src/b.rs", 1), ("src/a.rs", 1)]);
    s.insert("src/a.rs".to_string(), state(9));
    assert_eq!(s.len(), 2);
    s.mark_truncated();
    assert_eq!(
        s.render_summary(),
        "files: 2\n(snapshot truncated)\n- src/a.rs\n- src/b.rs"
    );
    assert_eq!(WorkspaceSnapshot::new().render_summary(), "files: 0");
    let many = snap(&(0..25).map(|i| (Box::leak(format!("f{i:02}").into_boxed_str()) as &str, 1)).collect::<Vec<_>>());
    let d = WorkspaceSnapshot::new().diff(&many);
    let report = render_workspace_diff(&d);
    assert!(report.ends_with("- created: f19\n- created: ... and 5 more"));
}

#[test]
fn path_order_is_code_point_order() {
    let c = |s: &str| s.chars().collect::<Vec<_>>();
    assert!(path_less(&c("a"), &c("b")));
    assert!(path_less(&c("a"), &c("ab")));
    assert!(!path_less(&c("b"), &c("ab")));
    assert!(path_less(&c("Z"), &c("a")));
    assert!(!path_less(&c("x"), &c("x")));
}

#[test]
fn terminal_and_screen_observations() {
    let mut obs = ObservationSystem::new("/w".to_string(), WorkspaceSnapshot::new());
    assert_eq!(obs.observe_terminal(), "no terminal output observed yet");
    obs.after_action("Bash", "ls output".to_string(), WorkspaceSnapshot::new(), WorkspaceSnapshot::new());
    assert_eq!(obs.observe_terminal(), "ls output");
    let screen = obs.observe_screen("  ");
    assert!(screen.starts_with("screen_state:\nactive_monitors:\nnone\nlatest_observation:\n<observation tool=\"Bash\">"));
    assert!(screen.ends_with("\nlatest_terminal:\nls output"));
    obs.remember_terminal("later".to_string());
    assert_eq!(obs.observe_terminal(), "later");
}

#[test]
fn webpage_changes_are_noticed() {
    let mut obs = ObservationSystem::new("/w".to_string(), WorkspaceSnapshot::new());
    let first = obs.observe_webpage("https://x", "hello");
    assert!(first.starts_with("url: https://x\nstate: first observation\ncontent_chars: 5\ncontent:\nhello"));
    let same = obs.observe_webpage("https://x", "hello");
    assert!(same.contains("state: unchanged since last observation (5 chars)"));
    let changed = obs.observe_webpage("https://x", "hello!!");
    assert!(changed.contains("state: changed since last observation (5 -> 7 chars)"));
    let note = obs.webpage_note("WebFetch", "url: https://x\nhello!!", 1);
    assert!(note.starts_with("observed https://x ("));
    assert_eq!(obs.webpage_note("WebSearch", "r", 1), "search results observed");
}

#[test]
fn workspace_observation_lists_files() {
    let mut obs = ObservationSystem::new("/w".to_string(), WorkspaceSnapshot::new());
    assert_eq!(obs.observe_workspace(snap(&[("a", 1)])), "workspace: /w\nfiles: 1\n- a");
    assert!(ObservationSystem::system_prompt().starts_with("<observation_system>"));
}

#[test]
fn snapshots_skip_build_folders_and_agent_files() {
    assert!(skip_entry(".git", ".git"));
    assert!(skip_entry("node_modules", "web/node_modules"));
    assert!(skip_entry("target", "target"));
    assert!(skip_entry("a.json", ".biscuits/conversations/a.json"));
    assert!(skip_entry("memory_graph.json", ".biscuits/memory_graph.json"));
    assert!(skip_entry("logs.md", "biscuit/logs.md"));
    assert!(skip_entry("logs12.md", "biscuit/logs12.md"));
    assert!(!skip_entry("logsx.md", "biscuit/logsx.md"));
    assert!(!skip_entry("main.rs", "src/main.rs"));
    assert!(!skip_entry("targets", "targets"));
}

#[test]
fn file_states_hash_small_files_only() {
    let a = file_state(3, 7, Some(b"abc".as_slice()));
    assert_eq!((a.len, a.modified_nanos), (3, 7));
    assert!(a.hash.is_some());
    let same = file_state(3, 7, Some(b"abc".as_slice()));
    assert_eq!(a.hash, same.hash);
    let other = file_state(3, 7, Some(b"abd".as_slice()));
    assert_ne!(a.hash, other.hash);
    assert!(file_state(3, 7, None).hash.is_none());
    assert!(file_state(MAX_HASH_BYTES + 1, 7, Some(b"abc".as_slice())).hash.is_none());
}

#[test]
fn file_observations_show_text_or_a_binary_note() {
    assert_eq!(
        file_observation("src/a.txt", 11, Some(1700000000), b"hello world", "hello world", 5),
        "file: src/a.txt\nbytes: 11\nmodified_unix: 1700000000\ncontent:\nhello..."
    );
    assert_eq!(
        file_observation("b.bin", 3, None, &[1, 0, 2], "\u{1}\u{0}\u{2}", 100),
        "file: b.bin\nbytes: 3\nmodified_unix: unknown\ncontent:\n(binary file; content omitted)"
    );
    let mut late_zero = vec![b'a'; 600];
    late_zero[550] = 0;
    assert!(!looks_binary(&late_zero));
    late_zero[511] = 0;
    assert!(looks_binary(&late_zero));
    assert!(!looks_binary(b""));
}

#[test]
fn walks_skip_build_folders() {
    assert!(skipped_dir_name("node_modules"));
    assert!(skipped_dir_name(".git"));
    assert!(!skipped_dir_name("src"));
}

#[test]
fn non_terminal_tools_keep_the_terminal_record() {
    let mut obs = ObservationSystem::new("/w".to_string(), WorkspaceSnapshot::new());
    let out = obs.after_action("Bash", "first".to_string(), WorkspaceSnapshot::new(), WorkspaceSnapshot::new());
    assert!(out.contains("<terminal_state>observed</terminal_state>"));
    let out = obs.after_action("Read", "file text".to_string(), WorkspaceSnapshot::new(), WorkspaceSnapshot::new());
    assert!(out.contains("<terminal_state>not_applicable</terminal_state>"));
    assert!(out.contains("<webpage_state>not_applicable</webpage_state>"));
    assert_eq!(obs.observe_terminal(), "first");
}

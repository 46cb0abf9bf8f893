use biscuits::memory::{
    categorize, contains_restricted, durable, is_biscuit_log_path, kind_for_category,
    log_file_name, log_header, markdown_from_text, prefixed_lines, redact_text, sensitivity,
    simple_line_diff, skip_snapshot_entry, title, valid_handoff, memory_command,
    memory_mode_command, privacy_command, MemoryCommandKind, MemoryMode, PrivacyMode,
    change_log_entry, file_record, log_has_room, render_file_diff, ChangeSnapshot, SnapshotFile,
    MAX_LOG_TEXT_BYTES, command_reply, document_reply, forgot_reply, memories_reply, MEMORY_HELP,
};

#[test]
fn biscuit_log_paths_are_detected_after_separator_normalization() {
    assert!(is_biscuit_log_path("biscuit/logs.md"));
    assert!(is_biscuit_log_path("biscuit/logs2.md"));
    assert!(is_biscuit_log_path(&"biscuit\\logs2.md".replace('\\', "/")));
    assert!(!is_biscuit_log_path("biscuit/handoff.md"));
    assert!(!is_biscuit_log_path("biscuit\\logs2.md"));
}

#[test]
fn log_path_edge_cases() {
    assert!(!is_biscuit_log_path("biscuit/logsx.md"));
    assert!(!is_biscuit_log_path("biscuit/logs"));
    assert!(is_biscuit_log_path("biscuit/logs12.md"));
    assert!(skip_snapshot_entry("target", "x/target"));
    assert!(skip_snapshot_entry("a.json", "biscuits/a.json"));
    assert!(skip_snapshot_entry("logs3.md", "biscuit/logs3.md"));
    assert!(!skip_snapshot_entry("main.rs", "src/main.rs"));
}

#[test]
fn redaction_hides_secrets() {
    let out = redact_text("my key is sk-abcdefghijklmnop and password: hunter2");
    assert!(!out.contains("sk-abcdefghijklmnop"));
    assert!(!out.contains("hunter2"));
    assert!(out.contains("[REDACTED_SECRET]"));
    assert_eq!(redact_text("nothing here"), "nothing here");
    assert!(contains_restricted("token = abc"));
    assert!(contains_restricted("the Private Key lives here"));
    assert!(!contains_restricted("plain words"));
}

#[test]
fn fact_classification() {
    assert!(!durable("thanks"));
    assert!(!durable("  Thank You  "));
    assert!(durable("I prefer tabs over spaces"));
    assert_eq!(categorize("I prefer tabs"), "preferences");
    assert_eq!(categorize("We are building a parser"), "projects");
    assert_eq!(categorize("Nothing special"), "facts");
    assert_eq!(kind_for_category("people"), "relational_memory");
    assert_eq!(title("recent_notable_events"), "Recent Notable Events");
    assert_eq!(sensitivity("my phone is new"), "sensitive");
    assert_eq!(sensitivity("Weather"), "public");
}

#[test]
fn log_shapes() {
    assert_eq!(log_file_name(1), "logs.md");
    assert_eq!(log_file_name(3), "logs3.md");
    assert_eq!(log_header(2, "# first\n"), "# Agent Change Log 2\n\n");
    assert_eq!(log_header(1, "# first\n"), "# first\n");
    assert!(valid_handoff("## Requirements\n## Project Summary\n## Project Specifics\n## Insights\n"));
    assert!(!valid_handoff("## Project Summary\n## Requirements\n## Project Specifics\n## Insights\n"));
    assert_eq!(markdown_from_text("```md\n# Title\nbody\n```"), "# Title\nbody");
    assert_eq!(markdown_from_text("  plain  "), "plain");
    assert_eq!(prefixed_lines("+", "a\nb"), "+a\n+b");
    assert_eq!(prefixed_lines("+", ""), "");
}

#[test]
fn line_diff_marks_changes() {
    assert_eq!(simple_line_diff("a\nb\nc", "a\nB\nc\nd"), "-b\n+B\n+d");
    assert_eq!(simple_line_diff("same", "same"), "(metadata changed only)");
    assert_eq!(simple_line_diff("x\ny", "x"), "-y");
}

fn parsed(input: &str) -> Option<(MemoryCommandKind, String)> {
    memory_command(input).map(|c| (c.kind, c.arg))
}

#[test]
fn memory_commands_are_recognised_with_their_arguments() {
    assert_eq!(parsed("/help"), Some((MemoryCommandKind::Help, String::new())));
    assert_eq!(parsed("/remember I like tea"), Some((MemoryCommandKind::Remember, "I like tea".to_string())));
    assert_eq!(parsed("/forget tea"), Some((MemoryCommandKind::Forget, "tea".to_string())));
    assert_eq!(parsed("/inspect"), Some((MemoryCommandKind::ShowMemories, String::new())));
    assert_eq!(parsed("/memories set new doc"), Some((MemoryCommandKind::SetMemories, "new doc".to_string())));
    assert_eq!(parsed("/biscuits"), Some((MemoryCommandKind::ShowProject, String::new())));
    assert_eq!(parsed("/memory-mode  hybrid "), Some((MemoryCommandKind::MemoryMode, "hybrid".to_string())));
    assert_eq!(parsed("/privacy"), Some((MemoryCommandKind::Privacy, String::new())));
    assert_eq!(parsed("/resume  abc "), Some((MemoryCommandKind::Resume, "abc".to_string())));
    assert_eq!(parsed("/config prompt  clear "), Some((MemoryCommandKind::ClearPrompt, String::new())));
    assert_eq!(parsed("/config prompt be brief"), Some((MemoryCommandKind::SetPrompt, "be brief".to_string())));
    assert_eq!(parsed("/config prompt"), Some((MemoryCommandKind::ShowPrompt, String::new())));
    assert_eq!(parsed("/shortcuts"), Some((MemoryCommandKind::ShowShortcuts, String::new())));
    assert_eq!(parsed("/shortcut add ctrl+r /clear"), Some((MemoryCommandKind::AddShortcut, "ctrl+r /clear".to_string())));
    assert_eq!(parsed("/shortcut remove Ctrl+R "), Some((MemoryCommandKind::RemoveShortcut, "Ctrl+R".to_string())));
    assert_eq!(parsed("/nonsense"), Some((MemoryCommandKind::Unknown, String::new())));
    assert_eq!(parsed("hello"), None);
    assert_eq!(parsed(""), None);
}

#[test]
fn memory_mode_accepts_aliases_and_refuses_unknown_words() {
    let (m, text) = memory_mode_command(MemoryMode::Hybrid, "");
    assert_eq!(m, None);
    assert_eq!(text, "memory mode: hybrid\nnormal privacy controls whether turns can be saved or memorized");
    assert_eq!(memory_mode_command(MemoryMode::Hybrid, "always"), (Some(MemoryMode::BestQuality), "memory mode: best".to_string()));
    assert_eq!(memory_mode_command(MemoryMode::Hybrid, "manual"), (Some(MemoryMode::ToolOnly), "memory mode: tool".to_string()));
    assert_eq!(memory_mode_command(MemoryMode::ToolOnly, "sometimes"), (None, "unknown mode. use best, hybrid, or tool".to_string()));
}

#[test]
fn privacy_command_switches_and_reports() {
    assert_eq!(privacy_command(PrivacyMode::Normal, ""), (None, "privacy: normal\nset with /privacy normal | ephemeral | incognito".to_string()));
    assert_eq!(privacy_command(PrivacyMode::Normal, "incognito"), (Some(PrivacyMode::Incognito), "privacy: incognito".to_string()));
    assert_eq!(privacy_command(PrivacyMode::Normal, "secret"), (None, "unknown privacy mode. use normal, ephemeral, or incognito".to_string()));
}

fn snapshot(files: &[(&str, &str, u128)]) -> ChangeSnapshot {
    let mut s = ChangeSnapshot::new();
    for (path, text, mtime) in files {
        s.insert(path.to_string(), file_record(text.len() as u64, *mtime, Some(text.as_bytes())));
    }
    s
}

#[test]
fn change_log_shows_line_diff_of_modified_file() {
    let before = snapshot(&[("tracked.txt", "before\n", 1)]);
    let after = snapshot(&[("tracked.txt", "after\n", 2)]);
    let log = change_log_entry(PrivacyMode::Normal, 7, &before, &after, "change tracked file").unwrap();
    assert!(log.starts_with("\n## Turn 7\n\n### Summary\n- Changed 1 file(s): 0 created, 1 modified, 0 deleted.\n"));
    assert!(log.contains("- User request: change tracked file\n"));
    assert!(log.contains("- modified: tracked.txt"));
    assert!(log.contains("-before"));
    assert!(log.contains("+after"));
}

#[test]
fn change_log_lists_created_and_deleted_files() {
    let before = snapshot(&[("gone.txt", "old\n", 1), ("same.txt", "x", 1)]);
    let after = snapshot(&[("new.txt", "hello\n", 1), ("same.txt", "x", 1)]);
    let log = change_log_entry(PrivacyMode::Normal, 1, &before, &after, "edit").unwrap();
    assert!(log.contains("- created: new.txt\n"));
    assert!(log.contains("- deleted: gone.txt\n"));
    assert!(!log.contains("same.txt"));
    assert!(log.contains("--- /dev/null\n+++ new.txt\n+hello\n```"));
    assert!(log.contains("--- gone.txt\n+++ /dev/null\n-old\n```"));
}

#[test]
fn change_log_is_skipped_without_changes_or_outside_normal_privacy() {
    let before = snapshot(&[("a.txt", "x", 1)]);
    let same = snapshot(&[("a.txt", "x", 1)]);
    assert_eq!(change_log_entry(PrivacyMode::Normal, 1, &before, &same, "q"), None);
    let after = snapshot(&[("a.txt", "y", 2)]);
    assert_eq!(change_log_entry(PrivacyMode::Incognito, 1, &before, &after, "q"), None);
    assert_eq!(change_log_entry(PrivacyMode::Ephemeral, 1, &before, &after, "q"), None);
}

#[test]
fn change_log_request_is_redacted_and_flattened() {
    let before = snapshot(&[]);
    let after = snapshot(&[("a.txt", "x", 1)]);
    let log = change_log_entry(PrivacyMode::Normal, 1, &before, &after, "use sk-abcdefghijklmnop\nplease").unwrap();
    assert!(log.contains("- User request: use [REDACTED_SECRET] please\n"));
}

#[test]
fn truncated_snapshot_is_noted() {
    let before = snapshot(&[]);
    let mut after = snapshot(&[("a.txt", "x", 1)]);
    after.mark_truncated();
    let log = change_log_entry(PrivacyMode::Normal, 1, &before, &after, "q").unwrap();
    assert!(log.contains("- Snapshot was truncated; some changes may be omitted.\n"));
}

#[test]
fn many_changed_files_are_counted_after_forty() {
    let before = snapshot(&[]);
    let names: Vec<String> = (0..45).map(|i| format!("f{i:02}.txt")).collect();
    let files: Vec<(&str, &str, u128)> = names.iter().map(|n| (n.as_str(), "x", 1)).collect();
    let after = snapshot(&files);
    let log = change_log_entry(PrivacyMode::Normal, 1, &before, &after, "q").unwrap();
    assert!(log.contains("- created: f39.txt\n"));
    assert!(!log.contains("- created: f40.txt\n"));
    assert!(log.contains("- created: ... and 5 more\n"));
}

#[test]
fn large_diffs_are_cut() {
    let big: String = (0..3000).map(|i| format!("line {i}\n")).collect();
    let before = snapshot(&[]);
    let after = snapshot(&[("big.txt", big.as_str(), 1)]);
    let log = change_log_entry(PrivacyMode::Normal, 1, &before, &after, "q").unwrap();
    assert!(log.contains("...\n(file diff truncated)\n"));
}

#[test]
fn file_records_keep_text_only_of_small_text_files() {
    let f = file_record(6, 5, Some(b"hello\n"));
    assert_eq!(f.text.as_deref(), Some("hello\n"));
    assert_eq!((f.len, f.modified_nanos), (6, 5));
    assert_eq!(file_record(3, 0, Some(b"a\0b")).text, None);
    assert_eq!(file_record(2, 0, Some(&[0xff, 0xfe])).text, None);
    assert_eq!(file_record(MAX_LOG_TEXT_BYTES + 1, 0, Some(b"x")).text, None);
    assert_eq!(file_record(1, 0, None).text, None);
    let secret = file_record(20, 0, Some(b"key sk-abcdefghijklmnop"));
    assert_eq!(secret.text.as_deref(), Some("key [REDACTED_SECRET]"));
}

#[test]
fn binary_file_diff_is_omitted() {
    let mut before = ChangeSnapshot::new();
    before.insert("bin".to_string(), SnapshotFile { len: 1, modified_nanos: 0, hash: 1, text: None });
    let mut after = ChangeSnapshot::new();
    after.insert("bin".to_string(), SnapshotFile { len: 2, modified_nanos: 0, hash: 2, text: None });
    assert_eq!(
        render_file_diff(&before, &after, "bin"),
        "\n```diff\n--- bin\n+++ bin\n(binary, deleted, or too large; content diff omitted)\n```\n"
    );
}

#[test]
fn log_room_depends_on_line_counts() {
    assert!(log_has_room(1990, 10, 3));
    assert!(!log_has_room(1995, 10, 3));
    assert!(log_has_room(2, 5000, 3));
}

#[test]
fn fixed_command_replies() {
    assert_eq!(command_reply("/nonsense").as_deref(), Some("unknown command. type /help"));
    assert_eq!(command_reply("hello"), None);
    assert_eq!(command_reply("/remember the sky is blue").as_deref(), Some("remembered"));
    assert_eq!(command_reply("/handoff set x").as_deref(), Some("handoff document replaced"));
    assert_eq!(command_reply("/compact").as_deref(), Some("conversation compacted"));
    assert_eq!(command_reply("/config prompt clear").as_deref(), Some("custom system prompt cleared; using default"));
    assert_eq!(command_reply("/help").as_deref(), Some(MEMORY_HELP));
    assert!(MEMORY_HELP.starts_with("commands:\n  /clear"));
    assert_eq!(command_reply("/handoff"), None);
    assert_eq!(command_reply("/memory-mode best"), None);
}

#[test]
fn store_document_replies() {
    assert_eq!(forgot_reply(3), "forgot 3 matching memories");
    assert_eq!(document_reply("# Handoff\n\n", "/w/handoff.md"), "# Handoff\n\nfile: /w/handoff.md");
    assert_eq!(memories_reply("- likes tea\n", 2), "- likes tea\n\nstructured memories: 2");
}

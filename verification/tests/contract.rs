use biscuits::contract::{
    files_from_diff, files_from_status, first_balanced_object, record_result, strip_fences,
    trim_or_none, truncate, ChangedItem, ChecklistItem, TestContract,
};

fn sample_contract() -> TestContract {
    TestContract {
        generated_at: "1700000000".to_string(),
        changed: vec![ChangedItem {
            file: "src/contract.rs".to_string(),
            summary: "added test contract module".to_string(),
        }],
        surfaces: vec!["cli".to_string()],
        checklist: vec![
            ChecklistItem {
                id: "T1".to_string(),
                scenario: "generate a contract".to_string(),
                expect: "checklist is produced".to_string(),
                status: "pending".to_string(),
                note: String::new(),
            },
            ChecklistItem {
                id: "T2".to_string(),
                scenario: "save then load".to_string(),
                expect: "round-trips".to_string(),
                status: "pass".to_string(),
                note: "verified".to_string(),
            },
        ],
    }
}

#[test]
fn render_counts_and_marks() {
    let contract = sample_contract();
    let rendered = contract.render();
    assert!(rendered.contains("2 item(s)"));
    assert!(rendered.contains("1 pass"));
    assert!(rendered.contains("1 fail") || rendered.contains("0 fail"));
    assert!(rendered.contains("1 pending"));
    assert!(rendered.contains('✓'));
    assert!(rendered.contains('•'));
    assert!(rendered.contains("[T1]"));
    assert!(rendered.contains("[T2]"));
}

#[test]
fn render_marks_failures() {
    let mut contract = sample_contract();
    contract.checklist[0].status = "fail".to_string();
    let rendered = contract.render();
    assert!(rendered.contains('✗'));
}

#[test]
fn render_exact_text() {
    let contract = sample_contract();
    assert_eq!(
        contract.render(),
        "test contract (2 item(s): 1 pass, 0 fail, 1 pending)\nsurfaces: cli\n\
         • [T1] generate a contract → checklist is produced\n\
         ✓ [T2] save then load → round-trips (verified)"
    );
}

#[test]
fn counts_partition_items() {
    let mut contract = sample_contract();
    contract.checklist[0].status = "FAIL".to_string();
    assert_eq!(contract.counts(), (1, 1, 0));
}

#[test]
fn markdown_has_checkboxes() {
    let md = sample_contract().markdown();
    assert!(md.contains("- [ ]"));
    assert!(md.contains("- [x]"));
    assert!(md.starts_with("# Test Contract\n\nGenerated at: 1700000000\n\n"));
    assert!(md.contains("Summary: 2 item(s) — 1 pass, 0 fail, 1 pending\n\n"));
    assert!(md.contains("## Surfaces\n\n- cli\n\n"));
    assert!(md.contains("- `src/contract.rs` — added test contract module\n"));
    assert!(md.contains("  - Note: verified\n"));
}

#[test]
fn markdown_empty_contract() {
    let c = TestContract {
        generated_at: "1".to_string(),
        changed: vec![],
        surfaces: vec![],
        checklist: vec![],
    };
    assert_eq!(
        c.markdown(),
        "# Test Contract\n\nGenerated at: 1\n\nSummary: 0 item(s) — 0 pass, 0 fail, 0 pending\n\n\
         ## Changed\n\n- (no changes detected)\n\n## Checklist\n\n_(no checklist items)_\n"
    );
}

#[test]
fn record_result_flips_status() {
    let mut contract = sample_contract();
    record_result(&mut contract, "T1", true, "looks good").unwrap();
    assert_eq!(contract.checklist[0].status, "pass");
    assert_eq!(contract.checklist[0].note, "looks good");
    record_result(&mut contract, "t1", false, "regressed").unwrap();
    assert_eq!(contract.checklist[0].status, "fail");
    assert_eq!(contract.checklist[0].note, "regressed");
    assert_eq!(contract.checklist[0].id, "T1");
    let err = record_result(&mut contract, "nope", true, "").unwrap_err();
    assert!(err.contains("unknown checklist id"));
    assert_eq!(err, "unknown checklist id: nope");
}

#[test]
fn files_from_status_handles_renames_and_paths() {
    let status = " M src/contract.rs\n?? new_file.rs\nR  old.rs -> renamed.rs\n";
    let files = files_from_status(status);
    assert!(files.contains(&"src/contract.rs".to_string()));
    assert!(files.contains(&"new_file.rs".to_string()));
    assert!(files.contains(&"renamed.rs".to_string()));
    assert!(!files.contains(&"old.rs".to_string()));
}

#[test]
fn files_from_status_unquotes_and_skips_short_lines() {
    let files = files_from_status("?? \"spaced name.rs\"\nab\n M é.rs\n");
    assert_eq!(files, vec!["spaced name.rs".to_string(), "é.rs".to_string()]);
}

#[test]
fn files_from_diff_strips_prefixes_and_dev_null() {
    let diff = "diff --git a/src/x.rs b/src/x.rs\n--- a/src/x.rs\n+++ b/src/x.rs\n@@\n+line\n\
                diff --git a/gone.rs b/gone.rs\n--- a/gone.rs\n+++ /dev/null\n";
    let files = files_from_diff(diff);
    assert!(files.contains(&"src/x.rs".to_string()));
    assert!(files.contains(&"gone.rs".to_string()));
    assert!(!files.iter().any(|f| f.contains("dev/null")));
    assert!(!files
        .iter()
        .any(|f| f.starts_with("a/") || f.starts_with("b/")));
}

#[test]
fn files_from_diff_cuts_at_tab() {
    let files = files_from_diff("+++ b/a.rs\t2024-01-01\n");
    assert_eq!(files, vec!["a.rs".to_string()]);
}

#[test]
fn strip_fences_handles_plain_and_fenced() {
    assert_eq!(strip_fences("  {\"a\":1}  "), "{\"a\":1}");
    assert_eq!(strip_fences("```json\n{\"a\":1}\n```"), "{\"a\":1}");
    assert_eq!(strip_fences("```\n{\"a\":1}\n```"), "{\"a\":1}");
}

#[test]
fn first_balanced_object_respects_strings() {
    assert_eq!(first_balanced_object("xx{}yy"), Some("{}"));
    assert_eq!(first_balanced_object(r#"{"k":"}"}"#), Some(r#"{"k":"}"}"#));
    assert_eq!(first_balanced_object("no braces"), None);
    assert_eq!(first_balanced_object("{ unbalanced"), None);
}

#[test]
fn first_balanced_object_skips_escaped_quotes() {
    assert_eq!(
        first_balanced_object(r#"a {"k":"\"}"} b"#),
        Some(r#"{"k":"\"}"}"#)
    );
}

#[test]
fn trim_or_none_and_truncate() {
    assert_eq!(trim_or_none("   "), "(none)");
    assert_eq!(trim_or_none("  x "), "x");
    assert_eq!(truncate("abcdef", 3), "abc...");
    assert_eq!(truncate("abc", 3), "abc");
}

#[test]
fn parse_clean_json() {
    let raw = r#"{"surfaces":["cli","api"],"checklist":[{"id":"A","scenario":"s","expect":"e"}]}"#;
    let (surfaces, checklist) = biscuits::contract::parse_contract_json(raw).unwrap();
    assert_eq!(surfaces, vec!["cli".to_string(), "api".to_string()]);
    assert_eq!(checklist.len(), 1);
    assert_eq!(checklist[0].id, "A");
    assert_eq!(checklist[0].scenario, "s");
    assert_eq!(checklist[0].expect, "e");
    assert_eq!(checklist[0].status, "pending");
    assert_eq!(checklist[0].note, "");
}

#[test]
fn parse_fenced_json() {
    let raw = "```json\n{\"surfaces\":[\"web\"],\"checklist\":[{\"scenario\":\"open page\",\"expect\":\"renders\"}]}\n```";
    let (surfaces, checklist) = biscuits::contract::parse_contract_json(raw).unwrap();
    assert_eq!(surfaces, vec!["web".to_string()]);
    assert_eq!(checklist.len(), 1);
    assert_eq!(checklist[0].id, "T1");
}

#[test]
fn parse_noisy_json() {
    let raw = "Sure! Here is the contract you asked for:\n\
        {\"surfaces\":[\"macos-gui\"],\"checklist\":[{\"id\":\"X1\",\"scenario\":\"click button\",\"expect\":\"action fires\"}]}\n\
        Let me know if you need anything else.";
    let (surfaces, checklist) = biscuits::contract::parse_contract_json(raw).unwrap();
    assert_eq!(surfaces, vec!["macos-gui".to_string()]);
    assert_eq!(checklist.len(), 1);
    assert_eq!(checklist[0].id, "X1");
}

#[test]
fn parse_brace_in_string() {
    let raw = r#"{"surfaces":[],"checklist":[{"id":"B","scenario":"handle literal } brace","expect":"no truncation {ok}"}]}"#;
    let (surfaces, checklist) = biscuits::contract::parse_contract_json(raw).unwrap();
    assert!(surfaces.is_empty());
    assert_eq!(checklist.len(), 1);
    assert_eq!(checklist[0].scenario, "handle literal } brace");
    assert_eq!(checklist[0].expect, "no truncation {ok}");
}

#[test]
fn parse_garbage_returns_none() {
    assert!(biscuits::contract::parse_contract_json("not json at all").is_none());
    assert!(biscuits::contract::parse_contract_json("").is_none());
    assert!(biscuits::contract::parse_contract_json("{ unterminated").is_none());
}

#[test]
fn parse_drops_invalid_surfaces() {
    let raw = r#"{"surfaces":["cli","quantum","WEB"],"checklist":[]}"#;
    let (surfaces, checklist) = biscuits::contract::parse_contract_json(raw).unwrap();
    assert_eq!(surfaces, vec!["cli".to_string(), "web".to_string()]);
    assert!(checklist.is_empty());
}

#[test]
fn parse_skips_empty_items_and_numbers_by_position() {
    let raw = r#"{"checklist":[{"scenario":"  "},{"test":"t","expected":"x","id":"  "}]}"#;
    let (surfaces, checklist) = biscuits::contract::parse_contract_json(raw).unwrap();
    assert!(surfaces.is_empty());
    assert_eq!(checklist.len(), 1);
    assert_eq!(checklist[0].id, "T2");
    assert_eq!(checklist[0].scenario, "t");
    assert_eq!(checklist[0].expect, "x");
}

#[test]
fn git_context_lists_changed_files_once_in_order() {
    let status = " M src/b.rs\n?? new.txt\n";
    let diff = "diff --git a/src/b.rs b/src/b.rs\n--- a/src/b.rs\n+++ b/src/b.rs\n@@\n-x\n+y\n--- a/src/a.rs\n+++ /dev/null\n";
    let (context, changed) = biscuits::contract::git_change_context(diff, status);
    let files: Vec<&str> = changed.iter().map(|c| c.file.as_str()).collect();
    assert_eq!(files, vec!["new.txt", "src/a.rs", "src/b.rs"]);
    assert!(changed.iter().all(|c| c.summary.is_empty()));
    assert!(context.starts_with("git status --porcelain:\nM src/b.rs\n?? new.txt\n\ngit diff:\ndiff --git"));
}

#[test]
fn log_context_and_prompt() {
    assert_eq!(
        biscuits::contract::log_change_context("  "),
        "This is not a git repository (or git is unavailable). Recent change log (tail of biscuit/logs.md):\n(none)"
    );
    let prompt = biscuits::contract::build_prompt("CTX", " ");
    assert!(prompt.starts_with("Produce a test checklist for the change below.\n\n<change_context>\nCTX\n</change_context>"));
    assert!(prompt.contains("<project_knowledge>\n(no project knowledge files found)\n</project_knowledge>"));
    assert!(prompt.contains("surfaces must be chosen only from: macos-gui, web, cli, api."));
    assert_eq!(biscuits::contract::knowledge_section("BISCUITS.md", " x "), "<BISCUITS.md>\nx\n</BISCUITS.md>\n\n");
    assert_eq!(biscuits::contract::knowledge_section("BISCUITS.md", "  "), "");
}

use biscuits::skill_store::{load_skill, Found, SkillSource, SkillStore};
use biscuits::skills::{
    dedup_lowercase, infer_description, parse_bool, parse_skill, split_top_level_commas, unquote,
};

const RUST_DEBUGGER: &str = r#"---
name: rust-debugger
description: Debugs Rust compiler, clippy, test, and CI failures.
triggers:
  - rust
  - cargo
  - clippy
  - compiler error
tools:
  - Read
  - Grep
  - Bash
  - Edit
enabled: true
---

# Rust Debugger

Read the failing command output, find the root cause, then fix it.
"#;

fn chars(s: &str) -> Vec<char> {
    s.chars().collect()
}

#[test]
fn parses_frontmatter() {
    let parsed = parse_skill(RUST_DEBUGGER, "fallback").unwrap();
    assert_eq!(parsed.name, "rust-debugger");
    assert_eq!(
        parsed.description,
        "Debugs Rust compiler, clippy, test, and CI failures."
    );
    assert_eq!(
        parsed.triggers,
        vec!["rust", "cargo", "clippy", "compiler error"]
    );
    assert_eq!(parsed.tools, vec!["Read", "Grep", "Bash", "Edit"]);
    assert!(parsed.enabled);
    assert!(parsed.body.contains("Read the failing command output"));
    assert!(!parsed.body.contains("name: rust-debugger"));
}

#[test]
fn parses_without_frontmatter_inferring_name_and_description() {
    let body = "# Build Helper\n\nRuns and explains the build.\n";
    let parsed = parse_skill(body, "build-helper").unwrap();
    assert_eq!(parsed.name, "build-helper");
    assert_eq!(parsed.description, "Build Helper");
    assert!(parsed.enabled);
    assert!(parsed.triggers.is_empty());
    assert!(parsed.body.starts_with("# Build Helper"));

    let plain = parse_skill("Just a plain note about deployments.", "deploy").unwrap();
    assert_eq!(plain.name, "deploy");
    assert_eq!(plain.description, "Just a plain note about deployments.");
}

#[test]
fn parses_inline_list_triggers() {
    let body = "---\nname: x\ntriggers: [alpha, \"beta\", gamma]\n---\nbody\n";
    let parsed = parse_skill(body, "x").unwrap();
    assert_eq!(parsed.triggers, vec!["alpha", "beta", "gamma"]);

    let quoted = parse_skill("---\nname: x\ntriggers: [\"a, b\", c]\n---\nbody\n", "x").unwrap();
    assert_eq!(quoted.triggers, vec!["a, b", "c"]);

    let unbalanced = parse_skill("---\nname: x\ntriggers: [alpha, beta\n---\nbody\n", "x").unwrap();
    assert_eq!(unbalanced.triggers, vec!["alpha", "beta"]);
}

#[test]
fn unterminated_frontmatter_is_rejected() {
    let err = parse_skill("---\nname: x\ndescription: d\nno closing fence\n", "folder").unwrap_err();
    assert!(err.contains("closing '---'"));

    // And discovery skips it with a warning instead of mis-loading it.
    let content = "---\nname: broken\ntriggers:\n  - x\nbody with no close\n";
    let path = "/p/.biscuits/skills/broken/SKILL.md".to_string();
    let found = match load_skill(path.clone(), "broken", SkillSource::Project, content.len() as u64, content) {
        Ok(skill) => Found::Loaded(skill),
        Err(err) => Found::Skipped(path, err),
    };
    let mut store = SkillStore::new("/w/biscuits/skills.json".into(), Vec::new());
    store.load(vec![found]);
    assert!(store.skills().is_empty());
    assert!(store.warnings().iter().any(|w| w.contains("closing '---'")));
}

#[test]
fn disabled_and_duplicate_triggers() {
    let p = parse_skill(
        "\u{feff}---\nName: Demo\nenabled: Off\ntrigger: [Rust, rust, RUST, go]\ndesc: 'quoted'\n---\n",
        "f",
    )
    .unwrap();
    assert_eq!(p.name, "Demo");
    assert!(!p.enabled);
    assert_eq!(p.triggers, vec!["Rust", "go"]);
    assert_eq!(p.description, "quoted");
    assert_eq!(p.body, "");
}

#[test]
fn small_helpers() {
    assert_eq!(unquote(&chars(" \"x\" ")), chars("x"));
    assert_eq!(unquote(&chars("\"")), chars("\""));
    assert_eq!(parse_bool(&chars(" YES ")), Some(true));
    assert_eq!(parse_bool(&chars("0")), Some(false));
    assert_eq!(parse_bool(&chars("maybe")), None);
    assert_eq!(
        split_top_level_commas(&chars("a,'b,c',d")),
        vec![chars("a"), chars("'b,c'"), chars("d")]
    );
    assert_eq!(infer_description("\n#\n## Title  here\nmore"), "Title here");
    assert_eq!(
        dedup_lowercase(vec!["A".to_string(), "a".to_string(), "b".to_string()]),
        vec!["A".to_string(), "b".to_string()]
    );
}

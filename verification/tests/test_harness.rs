use biscuits::test_harness::{
    baseline_context, detect, diff_note, diff_runs, filtered_command, parse_output, validate_filter, TestRun,
};

fn run(failed: u64) -> TestRun {
    TestRun {
        command: "cargo test".into(),
        flavor: "cargo".into(),
        passed: 3,
        failed,
        skipped: 0,
        exit_code: if failed == 0 { 0 } else { 101 },
        duration_ms: 5,
        raw_output: String::new(),
        timestamp: 1,
    }
}

#[test]
fn diff_counts_new_and_fixed_failures() {
    let d = diff_runs(run(1), run(3));
    assert_eq!(d.net_new_failures, 2);
    assert_eq!(d.net_fixed_failures, -2);
    assert!(d.has_regression);
    let d = diff_runs(run(2), run(0));
    assert_eq!(d.net_new_failures, -2);
    assert!(!d.has_regression);
    assert_eq!(diff_note(&d), "Latest diff: new_failures=-2, fixed_failures=2, regression=false.");
}

#[test]
fn detects_the_suite_by_marker_files() {
    let files = |names: &[&str]| names.iter().map(|s| s.to_string()).collect::<Vec<_>>();
    let p = detect(&files(&["Cargo.toml", "Makefile"]), "cargo").unwrap();
    assert_eq!((p.flavor, p.command.as_str()), ("cargo", "cargo test"));
    let p = detect(&files(&["Makefile", "setup.py"]), "cargo").unwrap();
    assert_eq!((p.flavor, p.command.as_str()), ("pytest", "pytest"));
    let p = detect(&files(&[".rspec"]), "cargo").unwrap();
    assert_eq!(p.command, "bundle exec rspec");
    assert!(detect(&files(&["README.md"]), "cargo").is_none());
}

#[test]
fn filters_go_where_each_flavor_takes_them() {
    assert_eq!(filtered_command("pytest", "pytest", "test_x"), "pytest -k test_x");
    assert_eq!(filtered_command("go", "go test ./...", "TestX"), "go test ./... -run TestX");
    assert_eq!(filtered_command("node", "npm test", "x"), "npm test -- x");
    assert_eq!(filtered_command("cargo", "cargo test", "x"), "cargo test x");
    assert!(validate_filter("mod::test_name").is_ok());
    assert_eq!(
        validate_filter("x; rm -rf /").unwrap_err(),
        "unsafe test filter; allowed chars are letters, numbers, _ . / : = -"
    );
}

#[test]
fn counts_cargo_pytest_go_and_rspec_output() {
    let r = parse_output("cargo", "cargo test", 101, "test result: FAILED. 5 passed; 2 failed; 1 ignored; 0 measured", 9);
    assert_eq!((r.passed, r.failed, r.skipped), (5, 2, 1));
    assert_eq!(r.timestamp, 9);
    let r = parse_output("pytest", "pytest", 1, "3 passed, 1 failed, 2 errors, 4 skipped", 0);
    assert_eq!((r.passed, r.failed, r.skipped), (3, 3, 4));
    let r = parse_output("go", "go test ./...", 1, "ok  a\nok  b\nFAIL c\n", 0);
    assert_eq!((r.passed, r.failed, r.skipped), (2, 1, 0));
    let r = parse_output("go", "go test ./...", 2, "build failed", 0);
    assert_eq!(r.failed, 1);
    let r = parse_output("rspec", "bundle exec rspec", 1, "10 examples, 3 failures, 2 pending", 0);
    assert_eq!((r.passed, r.failed, r.skipped), (7, 3, 2));
    let r = parse_output("generic", "make test", 0, "", 0);
    assert_eq!((r.passed, r.failed), (1, 0));
    let r = parse_output("cargo", "cargo test", 1, "no summary", 0);
    assert_eq!((r.passed, r.failed, r.skipped), (0, 1, 0));
}

#[test]
fn context_reports_the_baseline() {
    let c = baseline_context(&run(0), "No latest diff is available.");
    assert_eq!(
        c,
        "<test_harness>Baseline command: cargo test. Flavor: cargo. Passed: 3. Failed: 0. Skipped: 0. Suite green: true. No latest diff is available. Do not introduce additional failures; fix regressions before claiming completion.</test_harness>"
    );
}

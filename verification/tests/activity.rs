use biscuits::activity::{sanitize, shown_result};

#[test]
fn control_characters_are_removed_but_newlines_and_tabs_kept() {
    assert_eq!(sanitize("a\u{1b}[31mred\u{7}\n\tb\u{9b}c"), "a[31mred\n\tbc");
    assert_eq!(sanitize("plain"), "plain");
}

#[test]
fn long_results_are_cut_before_sanitizing() {
    let long = "x".repeat(8005);
    let shown = shown_result(&long);
    assert_eq!(shown.len(), 8003);
    assert!(shown.ends_with("..."));
    assert_eq!(shown_result("ok\u{1b}"), "ok");
}

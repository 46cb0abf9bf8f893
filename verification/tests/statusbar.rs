use biscuits::statusbar::{enabled, fit, format_bar, git_lines_changed, parse_usize, StatusBar};

#[test]
fn format_bar_includes_segments() {
    let bar = format_bar("Assisted", false, 3, 1200, 40, 12);
    assert!(bar.contains("mode Assisted"));
    assert!(bar.contains("3 turns"));
    assert!(bar.contains("1200 tok"));
    assert!(bar.contains("+40/-12"));
    assert!(!bar.contains("ultracode"));
}

#[test]
fn format_bar_shows_ultracode_when_on() {
    assert!(format_bar("Auto", true, 1, 10, 0, 0).contains("ultracode"));
}

#[test]
fn format_bar_exact_text() {
    assert_eq!(
        format_bar("Auto", true, 1, 10, 2, 3),
        "mode Auto  ·  ultracode  ·  1 turns  ·  10 tok  ·  +2/-3"
    );
}

#[test]
fn fit_truncates_with_ellipsis() {
    assert_eq!(fit("hello", 10), "hello");
    assert_eq!(fit("hello world", 5), "hell…");
}

#[test]
fn fit_zero_width_is_just_the_mark() {
    assert_eq!(fit("abc", 0), "…");
}

#[test]
fn enabled_needs_tty_and_truthy_value() {
    assert!(enabled(true, Some("on")));
    assert!(enabled(true, Some("1")));
    assert!(!enabled(false, Some("1")));
    assert!(!enabled(true, Some("off")));
    assert!(!enabled(true, None));
}

#[test]
fn bar_lifecycle_sequences() {
    let mut bar = StatusBar::new(true, 24);
    assert!(bar.active());
    assert_eq!(bar.setup_sequence(), "\x1b[2J\x1b[1;23r\x1b[H");
    let out = bar.set("hi", 80, 24, false);
    assert_eq!(out, "\x1b7\x1b[24;1H\x1b[2K● hi\x1b8");
    let out = bar.set("hi", 80, 30, false);
    assert_eq!(out, "\x1b[1;29r\x1b7\x1b[30;1H\x1b[2K● hi\x1b8");
    assert_eq!(bar.teardown_sequence(), "\x1b[r\x1b[30;1H\x1b[2K");
    assert_eq!(bar.set("hi", 80, 2, false), "");
}

#[test]
fn bar_inactive_when_disabled_or_tiny() {
    let bar = StatusBar::new(false, 24);
    assert!(!bar.active());
    assert_eq!(bar.setup_sequence(), "");
    assert!(!StatusBar::new(true, 2).active());
}

#[test]
fn numstat_sums_columns_and_skips_binary() {
    let text = "3\t1\tsrc/a.rs\n-\t-\timg.png\n10\t0\tREADME.md\n";
    assert_eq!(git_lines_changed(text), (13, 1));
    assert_eq!(git_lines_changed(""), (0, 0));
}

#[test]
fn parse_usize_follows_from_str() {
    let p = |s: &str| parse_usize(&s.chars().collect::<Vec<_>>());
    assert_eq!(p("42"), Some(42));
    assert_eq!(p("+7"), Some(7));
    assert_eq!(p("+"), None);
    assert_eq!(p(""), None);
    assert_eq!(p("4a"), None);
    assert_eq!(p("99999999999999999999999"), None);
}

use biscuits::browser::{
    browser_command, browser_status, launch_command, launched_text, unknown_browser_command,
    BrowserAction,
};

#[test]
fn browser_words_pick_the_action() {
    assert_eq!(browser_command("/browser").map(|(a, _)| a), Some(BrowserAction::Status));
    assert_eq!(browser_command("/browser use").map(|(a, _)| a), Some(BrowserAction::Launch));
    assert_eq!(browser_command("/browser  close ").map(|(a, _)| a), Some(BrowserAction::Stop));
    assert_eq!(browser_command("/browser help").map(|(a, _)| a), Some(BrowserAction::Help));
    assert_eq!(browser_command("/browser fly").map(|(a, w)| (a, w)), Some((BrowserAction::Unknown, "fly".to_string())));
    assert!(browser_command("/browsers").is_none());
    assert!(unknown_browser_command("fly").starts_with("unknown /browser command: fly\n\nBiscuit Browser"));
}

#[test]
fn browser_status_and_launch_texts() {
    assert_eq!(
        browser_status("/w/biscuit-browser", false, false, false),
        "Biscuit Browser is not present.\nExpected at: /w/biscuit-browser\n(Run this from the Biscuits repo root.)"
    );
    assert_eq!(
        browser_status("/d", true, true, true),
        "Biscuit Browser: running (this session); dependencies installed.\nDirectory: /d\nStart it with `/browser use`."
    );
    assert_eq!(launch_command(false), "npm install && npm run dev");
    assert!(launched_text(true).contains("Installing dependencies first"));
    assert!(!launched_text(false).contains("Installing"));
}

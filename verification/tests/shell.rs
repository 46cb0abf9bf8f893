use biscuits::shell::quote;

#[test]
fn quote_handles_single_quotes_for_posix_shells() {
    assert_eq!(quote("Bob's app"), "'Bob'\\''s app'");
}

#[test]
fn quote_plain_and_empty() {
    assert_eq!(quote("ls -la"), "'ls -la'");
    assert_eq!(quote(""), "''");
}

#[test]
fn quote_wraps_windows_arguments() {
    assert_eq!(
        biscuits::shell::quote_windows("C:\\Program Files\\App"),
        "\"C:\\Program Files\\App\""
    );
}

#[test]
fn quote_windows_escapes_double_quotes() {
    assert_eq!(biscuits::shell::quote_windows("say \"hi\""), "\"say \\\"hi\\\"\"");
}

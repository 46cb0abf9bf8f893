use biscuits::markdown::render;

// Styling is off here, so only the structure is compared.

#[test]
fn headings_render_with_hash_for_h1() {
    assert_eq!(render("# Title", false), "# Title");
    assert_eq!(render("## Sub", false), "Sub");
    assert_eq!(render("### Small", false), "Small");
}

#[test]
fn bullets_become_dots_preserving_indent() {
    assert_eq!(render("- one", false), "• one");
    assert_eq!(render("  - nested", false), "  • nested");
    assert_eq!(render("* star", false), "• star");
}

#[test]
fn numbered_lists_keep_numbers() {
    assert_eq!(render("1. first", false), "1. first");
    assert_eq!(render("3) third", false), "3. third");
}

#[test]
fn code_fence_indents_and_hides_fences() {
    let out = render("```rust\nfn main() {}\n```", false);
    assert_eq!(out, "    fn main() {}");
}

#[test]
fn inline_code_and_bold_strip_markers() {
    assert_eq!(render("use `cargo` now", false), "use cargo now");
    assert_eq!(render("**bold** text", false), "bold text");
    assert_eq!(render("_em_ here", false), "em here");
}

#[test]
fn horizontal_rule_renders_a_line() {
    assert_eq!(render("---", false), "────────────────────");
}

#[test]
fn plain_paragraph_unchanged() {
    assert_eq!(render("just words", false), "just words");
}

#[test]
fn unterminated_inline_marker_is_literal() {
    assert_eq!(render("a * b c", false), "a * b c");
    assert_eq!(render("open `code", false), "open `code");
}

#[test]
fn blockquote_gets_a_bar() {
    assert_eq!(render("> quoted *it*", false), "│ quoted it");
}

#[test]
fn multiple_lines_are_joined_with_newlines() {
    assert_eq!(render("a\r\nb\n\nc\n", false), "a\nb\n\nc");
}

#[test]
fn color_wraps_heading_in_codes() {
    assert_eq!(render("## x", true), "\x1b[1m\x1b[38;5;44mx\x1b[0m\x1b[0m");
}

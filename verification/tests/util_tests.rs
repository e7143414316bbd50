use owui_lint::util::{count_indent, strip_inline_comment};

#[test]
fn strip_inline_comment_keeps_hash_inside_double_quoted_string() {
    let line = r#"message = "value # not a comment"  # actual comment"#;
    assert_eq!(
        strip_inline_comment(line).trim_end(),
        r#"message = "value # not a comment""#
    );
}

#[test]
fn strip_inline_comment_handles_escaped_quote_before_hash() {
    let line = r#"message = "escaped quote \" # still string"  # comment"#;
    assert_eq!(
        strip_inline_comment(line).trim_end(),
        r#"message = "escaped quote \" # still string""#
    );
}

#[test]
fn strip_inline_comment_without_comment_keeps_line() {
    assert_eq!(strip_inline_comment("x = 1"), "x = 1");
    assert_eq!(strip_inline_comment("# only"), "");
}

#[test]
fn count_indent_counts_spaces_and_tabs() {
    assert_eq!(count_indent("    x"), 4);
    assert_eq!(count_indent("\tx"), 4);
    assert_eq!(count_indent("x"), 0);
}

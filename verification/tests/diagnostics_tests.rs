use owui_lint::models::{Issue, Severity};
use owui_lint::server::diagnostics::{issues_to_diagnostics, issues_to_diagnostics_checked, DIAGNOSTIC_SOURCE};

fn issue(rule_id: &str, line: usize, column: usize) -> Issue {
    Issue {
        rule_id: rule_id.to_string(),
        severity: Severity::Warning,
        message: "msg".to_string(),
        path: "buffer.py".to_string(),
        line,
        column,
    }
}

#[test]
fn converts_one_indexed_positions_to_zero_indexed() {
    // Source: line 1 is empty, line 2 has 9 chars ("def x():").
    let source = "\ndef x():\n";
    let diagnostics = issues_to_diagnostics(&[issue("OWT102", 2, 5)], source);
    let d = &diagnostics[0];
    // 1-indexed (2,5) -> 0-indexed (1,4).
    assert_eq!((d.line, d.start_character), (1, 4));
    // Highlight runs to the end of the line (8 chars on "def x():").
    assert_eq!((d.line, d.end_character), (1, 8));
}

#[test]
fn clamps_end_column_on_blank_or_short_line() {
    // Issue points past the end of a blank first line: ensure a non-empty
    // (at least 1-wide) range so the squiggle is visible.
    let diagnostics = issues_to_diagnostics(&[issue("OWT102", 1, 3)], "\n");
    let d = &diagnostics[0];
    assert_eq!((d.line, d.start_character), (0, 2));
    assert_eq!((d.line, d.end_character), (0, 3));
    assert!(d.end_character > d.start_character);
}

#[test]
fn maps_severity_and_sets_owui_source() {
    let mut err = issue("OWT102", 1, 1);
    err.severity = Severity::Error;
    let diagnostics = issues_to_diagnostics(&[err], "x\n");
    assert_eq!(diagnostics[0].severity, Severity::Error);
    assert_eq!(diagnostics[0].source.as_str(), DIAGNOSTIC_SOURCE);
    assert_eq!(diagnostics[0].code, "OWT102".to_string());
}

#[test]
fn columns_are_utf16_code_units_not_chars() {
    // The crab is one char but two UTF-16 code units. An issue at (char)
    // column 4 — the `d` of `def`, after the crab, a space, `x` and a space —
    // must map to UTF-16 column 5, and the line-end column must count the crab
    // as two units.
    let source = "🦀 x def y():\n";
    let diagnostics = issues_to_diagnostics(&[issue("OWT102", 1, 5)], source);
    let d = &diagnostics[0];
    // 1-indexed char column 5 -> 0-indexed char 4 -> UTF-16 offset 5.
    assert_eq!((d.line, d.start_character), (0, 5));
    // End runs to the line's UTF-16 length (one more than its char count).
    let utf16_len = "🦀 x def y():".encode_utf16().count() as u32;
    assert_eq!((d.line, d.end_character), (0, utf16_len));
}

#[test]
fn unknown_rule_has_no_code_description() {
    let diagnostics = issues_to_diagnostics(&[issue("ZZZ999", 1, 1)], "x\n");
    assert!(diagnostics[0].help_url.is_none());
}

#[test]
fn known_rule_carries_its_documentation_link() {
    let diagnostics = issues_to_diagnostics(&[issue("OWT102", 1, 1)], "x\n");
    assert!(diagnostics[0].help_url.is_some());
    assert_eq!(diagnostics[0].message, "msg");
}

#[test]
fn findings_beyond_32_bit_positions_get_no_diagnostic() {
    let fits = Issue {
        rule_id: "OWT102".to_string(),
        severity: Severity::Warning,
        message: "m".to_string(),
        path: "a.py".to_string(),
        line: 1,
        column: 1,
    };
    let far = Issue { column: usize::MAX, ..fits.clone() };
    let deep = Issue { line: usize::MAX, ..fits.clone() };
    let diagnostics = issues_to_diagnostics_checked(&[fits.clone(), far, deep, fits], "x\n");
    assert_eq!(diagnostics.len(), 2);
    assert!(diagnostics.iter().all(|d| d.line == 0 && d.start_character == 0));
}

#[test]
fn final_carriage_return_without_line_feed_stays_in_the_line() {
    let x = Issue {
        rule_id: "OWT102".to_string(),
        severity: Severity::Warning,
        message: "m".to_string(),
        path: "a.py".to_string(),
        line: 1,
        column: 1,
    };
    let d = issues_to_diagnostics(&[x.clone()], "a\r");
    assert_eq!((d[0].start_character, d[0].end_character), (0, 2));
    let d = issues_to_diagnostics(&[x], "a\r\n");
    assert_eq!((d[0].start_character, d[0].end_character), (0, 1));
}

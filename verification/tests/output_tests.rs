use owui_lint::models::{Issue, LintSummary, Severity};
use owui_lint::output::{
    escape_github, format_github, format_rule_counts, format_rule_explanation,
    format_rule_list_text, format_text, push_decimal, rule_counts, sarif_help, sarif_level,
};
use owui_lint::rules::issue;

fn sample() -> Vec<Issue> {
    vec![
        issue("OWT101", "path/to/tools.py", 10, 5, "Tool method 'search' should include a descriptive docstring."),
        issue("OWT102", "path/to/tools.py", 10, 5, "Tool method 'search' should be async."),
        issue("OWT101", "path/to/tools.py", 20, 5, "Tool method 'other' should include a descriptive docstring."),
    ]
}

#[test]
fn text_output_contains_fix_guidance() {
    let issues = sample();
    let summary = LintSummary { files_scanned: 1, errors: 0, warnings: 3 };
    let text = format_text(&issues, &summary);
    let lines: Vec<&str> = text.split('\n').collect();
    assert_eq!(
        lines[0],
        "path/to/tools.py:10:5: warning OWT101 Tool method 'search' should include a descriptive docstring."
    );
    assert_eq!(
        lines[1],
        "  help: Tool methods should include clear docstrings so users understand capabilities."
    );
    assert_eq!(lines[2], "  fix: Add a descriptive docstring to each public tool method.");
    assert_eq!(lines[3], "");
    assert!(text.contains("Scanned 1 file(s), found 0 error(s), 3 warning(s)."));
    assert!(text.ends_with("Rules triggered: OWT101 (2), OWT102 (1)"));
}

#[test]
fn text_output_without_findings_has_only_totals() {
    let summary = LintSummary { files_scanned: 12, errors: 0, warnings: 0 };
    assert_eq!(
        format_text(&[], &summary),
        "Scanned 12 file(s), found 0 error(s), 0 warning(s)."
    );
}

#[test]
fn rule_counts_are_ordered_by_rule_id() {
    let mut issues = sample();
    issues.push(issue("OWA401", "a.py", 1, 1, "x"));
    let counts = rule_counts(&issues);
    let pairs: Vec<(String, usize)> = counts;
    assert_eq!(
        pairs,
        vec![
            ("OWA401".to_string(), 1),
            ("OWT101".to_string(), 2),
            ("OWT102".to_string(), 1)
        ]
    );
    let text: String = format_rule_counts(&issues).into_iter().collect();
    assert_eq!(text, "OWA401 (1), OWT101 (2), OWT102 (1)");
}

#[test]
fn github_output_escapes_workflow_characters() {
    let issues = vec![issue("OWP200", "dir,x/pipe.py", 3, 1, "Pipe class must define a 'pipe' method.")];
    let summary = LintSummary { files_scanned: 1, errors: 1, warnings: 0 };
    let text = format_github(&issues, &summary);
    let first = text.split('\n').next().expect("a line");
    assert!(first.starts_with("::error file=dir%2Cx/pipe.py,line=3,col=1,title=Pipe method missing::OWP200%3A Pipe class must define a 'pipe' method. Fix%3A "));
    assert!(text.contains("owui-lint: scanned 1 file(s), 1 error(s), 0 warning(s)."));
    assert!(text.ends_with("owui-lint: rules triggered -> OWP200 (1)"));
    let escaped: String = escape_github(&"50%\r\n:,".chars().collect::<Vec<_>>()).into_iter().collect();
    assert_eq!(escaped, "50%25%0D%0A%3A%2C");
}

#[test]
fn rule_list_and_explanations() {
    let list = format_rule_list_text();
    assert!(list.starts_with("Available rules: 25\n\nOWUI001 [error] Python syntax error\n"));
    let explained = format_rule_explanation("OWT101").expect("known rule");
    assert!(explained.starts_with("OWT101 [warning] "));
    assert!(explained.contains("\nFix: "));
    assert!(explained.contains("\nDocs: "));
    assert!(format_rule_explanation("NOPE").is_none());
}

#[test]
fn numbers_and_levels() {
    let mut v = Vec::new();
    push_decimal(&mut v, 0);
    push_decimal(&mut v, 907);
    let s: String = v.into_iter().collect();
    assert_eq!(s, "0907");
    assert_eq!(sarif_level(Severity::Error), "error");
    assert_eq!(sarif_level(Severity::Warning), "warning");
}

#[test]
fn sarif_help_joins_remediation_and_link() {
    let rule = owui_lint::rules::rule_doc("OWT101").expect("known rule");
    assert_eq!(
        sarif_help(&rule),
        "Add a descriptive docstring to each public tool method. See: https://docs.openwebui.com/features/plugin/tools/"
    );
}

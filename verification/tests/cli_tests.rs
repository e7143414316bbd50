use owui_lint::cli::{
    exit_code_for, normalize_rule_id, unknown_overrides_warning, unknown_rule_overrides, FailOn,
};
use owui_lint::config::{parse_yaml_config, Config};
use owui_lint::linter::lint_source;
use owui_lint::models::LintSummary;
use owui_lint::output::{format_rule_explanation, format_text};

#[test]
fn fail_on_policies() {
    let clean = LintSummary { files_scanned: 1, errors: 0, warnings: 0 };
    let warned = LintSummary { files_scanned: 1, errors: 0, warnings: 2 };
    let failed = LintSummary { files_scanned: 1, errors: 1, warnings: 0 };
    assert_eq!(exit_code_for(FailOn::Never, &failed), 0);
    assert_eq!(exit_code_for(FailOn::Error, &warned), 0);
    assert_eq!(exit_code_for(FailOn::Error, &failed), 1);
    assert_eq!(exit_code_for(FailOn::Warning, &warned), 1);
    assert_eq!(exit_code_for(FailOn::Warning, &clean), 0);
}

#[test]
fn rule_ids_are_normalized() {
    assert_eq!(normalize_rule_id("  owt101 "), "OWT101");
}

#[test]
fn unknown_overrides_are_listed_in_order() {
    let config = parse_yaml_config("rules:\n  ZZZ9: off\n  OWT101: off\n  AAA1: error\n").expect("parses");
    let unknown: Vec<String> = unknown_rule_overrides(&config)
        .into_iter()
        .map(|v| v.into_iter().collect())
        .collect();
    assert_eq!(unknown, vec!["AAA1".to_string(), "ZZZ9".to_string()]);
    assert_eq!(
        unknown_overrides_warning(&config).expect("warning"),
        "Warning: unknown rule override(s) in config: AAA1, ZZZ9. Run `owui-lint rules` to list valid IDs."
    );
    let clean = parse_yaml_config("rules:\n  OWT101: off\n").expect("parses");
    assert!(unknown_overrides_warning(&clean).is_none());
}

#[test]
fn cli_fails_on_error() {
    let (_, summary) = lint_source(
        "broken.py",
        "class Pipe:\n    def pipe(self, body):\n        return body\n    def x(\n",
        &Config::default(),
    );
    assert_eq!(exit_code_for(FailOn::Error, &summary), 1);
}

#[test]
fn cli_text_output_contains_fix_guidance() {
    let (issues, summary) = lint_source(
        "tools.py",
        "class Tools:\n    class Valves:\n        pass\n\n    def __init__(self):\n        self.valves = self.Valves()\n\n    async def search(self, query: str) -> str:\n        return query\n",
        &Config::default(),
    );
    let report = format_text(&issues, &summary);
    assert!(report.contains("OWT101"));
    assert!(report.contains("help:"));
    assert!(report.contains("fix:"));
    assert_eq!(exit_code_for(FailOn::Never, &summary), 0);
}

#[test]
fn cli_explain_rule_output() {
    let explained = format_rule_explanation(&normalize_rule_id("OWT101")).expect("known rule");
    assert!(explained.contains("OWT101"));
    assert!(explained.contains("Fix:"));
}

use owui_lint::config::Config;
use owui_lint::models::{Issue, Severity};
use owui_lint::server::hover::render_issue;
use owui_lint::server::state::ServerState;

// `def search` (line 2, 1-indexed) triggers OWT101/OWT102; `return query`
// (line 3) carries no finding.
const TOOLS_SOURCE: &str = "class Tools:\n    def search(self, query):\n        return query\n";

fn hover_at(source: &str, line: u32) -> Option<String> {
    let uri = "file:///tmp/owui_hover_test.py";
    let mut state = ServerState::new(None, Config::default());
    state.upsert(uri, source.to_string(), 1);
    state.hover(uri, line)
}

#[test]
fn hover_on_finding_line_renders_rule_doc() {
    // 0-indexed line 1 == the `def search` line (1-indexed line 2).
    let value = hover_at(TOOLS_SOURCE, 1).expect("hover present on finding line");
    assert!(
        value.contains("OWT101"),
        "hover should mention the rule id, got: {}",
        value
    );
}

#[test]
fn hover_off_finding_line_is_none() {
    // 0-indexed line 2 == `return query` (1-indexed line 3): no finding.
    assert!(hover_at(TOOLS_SOURCE, 2).is_none());
}

#[test]
fn hover_none_for_unknown_document() {
    let state = ServerState::new(None, Config::default());
    assert!(state.hover("file:///tmp/owui_hover_missing.py", 0).is_none());
}

#[test]
fn render_of_unknown_rule_shows_id_and_message() {
    let x = Issue {
        rule_id: "ZZZ1".to_string(),
        severity: Severity::Warning,
        message: "custom".to_string(),
        path: "a.py".to_string(),
        line: 1,
        column: 1,
    };
    assert_eq!(render_issue(&x), "`ZZZ1`\n\ncustom");
}

#[test]
fn render_of_known_rule_starts_with_its_title() {
    let x = Issue {
        rule_id: "OWT101".to_string(),
        severity: Severity::Warning,
        message: "m".to_string(),
        path: "a.py".to_string(),
        line: 1,
        column: 1,
    };
    let text = render_issue(&x);
    assert!(text.starts_with("**"));
    assert!(text.contains("· `OWT101`"));
    assert!(text.contains("**Fix:** "));
    assert!(text.contains("[Documentation]("));
    assert!(text.ends_with(
        "[Documentation](https://docs.openwebui.com/features/plugin/tools/) · Open WebUI ≥ 0.5.0"
    ));
}

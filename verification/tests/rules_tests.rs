use std::collections::BTreeSet;

use owui_lint::models::Severity;
use owui_lint::rules::{all_rules, is_known_rule, issue, rule_doc, OWP200, OWT101};

#[test]
fn rule_catalog_has_unique_ids() {
    let mut seen = BTreeSet::new();
    for rule in all_rules() {
        assert!(seen.insert(rule.id), "duplicate rule id: {}", rule.id);
    }
}

#[test]
fn issue_uses_default_error_severity() {
    let finding = issue(OWP200, "pipe.py", 10, 2, "test message");
    assert_eq!(finding.severity, Severity::Error);
}

#[test]
fn issue_uses_default_warning_severity() {
    let finding = issue(OWT101, "tools.py", 8, 3, "test message");
    assert_eq!(finding.severity, Severity::Warning);
}

#[test]
fn known_rule_detection_works() {
    assert!(is_known_rule(OWP200));
    assert!(!is_known_rule("OWX999"));
}

#[test]
fn issue_keeps_place_and_message() {
    let finding = issue(OWT101, "tools.py", 8, 3, "test message");
    assert_eq!(finding.rule_id, "OWT101");
    assert_eq!(finding.path, "tools.py");
    assert_eq!(finding.line, 8);
    assert_eq!(finding.column, 3);
    assert_eq!(finding.message, "test message");
}

#[test]
fn rule_doc_finds_catalog_entries() {
    let doc = rule_doc("OWA401").expect("OWA401 is documented");
    assert_eq!(doc.id, "OWA401");
    assert_eq!(doc.default_severity, Severity::Warning);
    assert!(rule_doc("OWF302").is_none());
    assert_eq!(all_rules().len(), 25);
}

#[test]
fn rule_ids_follow_the_schema() {
    for rule in owui_lint::rules::all_rules() {
        let id = rule.id;
        assert!(id.starts_with("OW"), "{id}");
        let digits = &id[id.len() - 3..];
        assert!(digits.chars().all(|c| c.is_ascii_digit()), "{id}");
        let range = match &id[2..id.len() - 3] {
            "UI" => '0',
            "T" => '1',
            "P" => '2',
            "F" => '3',
            "A" => '4',
            "PL" => '5',
            other => panic!("unknown prefix {other} in {id}"),
        };
        assert_eq!(digits.chars().next(), Some(range), "{id}");
    }
}

use owui_lint::config::{parse_yaml_config, Config};
use owui_lint::models::SeverityOverride;

#[test]
fn parses_yaml_config() {
    let parsed = parse_yaml_config(
        r#"
lint:
  include:
    - "**/*.py"
  exclude:
    - tests/**
rules:
  owt101: off
  OWP202: error
"#,
    )
    .expect("config should parse");

    assert_eq!(parsed.include_patterns, vec!["**/*.py"]);
    assert_eq!(parsed.exclude_patterns, vec!["tests/**"]);
    assert!(parsed.rule_overrides.contains_key("OWT101"));
    assert!(parsed.rule_overrides.contains_key("OWP202"));
}

#[test]
fn returns_defaults_without_file() {
    let config = Config::default();
    assert!(config.include_patterns.iter().any(|entry| entry == "**/*.py"));
}

#[test]
fn default_config_excludes_tool_directories() {
    let config = Config::default();
    assert_eq!(
        config.exclude_patterns,
        vec![".git/**", ".venv/**", "**/__pycache__/**"]
    );
    assert!(config.rule_overrides.get("OWT101").is_none());
}

#[test]
fn later_rule_override_wins() {
    let parsed = parse_yaml_config("rules:\n  OWT101: off\n  OWT101: error\n").expect("parses");
    assert_eq!(parsed.rule_overrides.get("OWT101"), Some(SeverityOverride::Error));
}

#[test]
fn unknown_severity_value_is_ignored() {
    let parsed = parse_yaml_config("rules:\n  OWT101: loud\n").expect("parses");
    assert!(!parsed.rule_overrides.contains_key("OWT101"));
}

#[test]
fn severity_override_parses_case_insensitively() {
    assert_eq!(SeverityOverride::parse(" Warning "), Some(SeverityOverride::Warning));
    assert_eq!(SeverityOverride::parse("OFF"), Some(SeverityOverride::Off));
    assert_eq!(SeverityOverride::parse("maybe"), None);
}

#[test]
fn empty_include_list_falls_back_to_python_files() {
    let parsed = parse_yaml_config("lint:\n  include:\n  exclude:\n    - build/**\n").expect("parses");
    assert_eq!(parsed.include_patterns, vec!["**/*.py"]);
    assert_eq!(parsed.exclude_patterns, vec!["build/**"]);
}

#[test]
fn rule_keys_are_stored_in_upper_case() {
    let parsed = parse_yaml_config("rules:\n  owp202: warning\n  Owt101: error\n").expect("parses");
    assert_eq!(parsed.rule_overrides.get("OWP202"), Some(SeverityOverride::Warning));
    assert_eq!(parsed.rule_overrides.get("OWT101"), Some(SeverityOverride::Error));
}

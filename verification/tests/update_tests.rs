use owui_lint::update::{latest_version_in, newer_version};

#[test]
fn newer_tag_is_reported_without_its_prefix() {
    assert_eq!(newer_version("v1.2.0", "1.1.0"), Some("1.2.0".to_string()));
    assert_eq!(newer_version("1.2.0", "1.1.0"), Some("1.2.0".to_string()));
    assert_eq!(newer_version("v1.1.0", "1.1.0"), None);
}

#[test]
fn release_description_is_read_from_json() {
    assert_eq!(
        latest_version_in("{\"tag_name\": \"v9.9.9\", \"name\": \"x\"}", "0.1.0"),
        Some("9.9.9".to_string())
    );
    assert_eq!(latest_version_in("{\"tag_name\": \"v0.1.0\"}", "0.1.0"), None);
    assert_eq!(latest_version_in("not json", "0.1.0"), None);
    assert_eq!(latest_version_in("{\"name\": \"x\"}", "0.1.0"), None);
    assert_eq!(latest_version_in("{\"tag_name\": 3}", "0.1.0"), None);
}

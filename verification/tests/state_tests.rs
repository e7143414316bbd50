use owui_lint::config::{parse_yaml_config, Config};
use owui_lint::server::state::{document_path, uri_to_file_path, uri_to_path, ServerState};

#[test]
fn uri_to_path_handles_file_uri() {
    let path = uri_to_path("file:///tmp/owui/tools.py");
    assert_eq!(path, "/tmp/owui/tools.py");
    // The `.py` extension survives so the analyzer can detect the file type.
    assert!(path.ends_with(".py"));
}

#[test]
fn uri_to_path_falls_back_for_non_file_uri() {
    // Non-`file://` scheme (e.g. an unsaved/virtual buffer): best-effort path
    // from the URI path component, still ending in `.py`.
    let path = uri_to_path("untitled:/Untitled-1.py");
    assert!(path.ends_with(".py"));
}

#[test]
fn uri_to_path_keeps_text_that_is_no_url() {
    assert_eq!(uri_to_path("relative/tools.py"), "relative/tools.py");
    assert_eq!(uri_to_file_path("relative/tools.py"), None);
}

#[test]
fn uri_to_file_path_reads_file_uris() {
    assert_eq!(
        uri_to_file_path("file:///tmp/owui/pipe.py"),
        Some("/tmp/owui/pipe.py".to_string())
    );
}

#[test]
fn upsert_and_document_roundtrip() {
    let mut state = ServerState::new(None, Config::default());
    let doc_uri = "file:///tmp/a.py";
    state.upsert(doc_uri, "print(1)".to_string(), 7);

    let doc = state.document(doc_uri).expect("document stored");
    assert_eq!(doc.text, "print(1)");
    assert_eq!(doc.version, 7);

    // upsert replaces (last write wins for FULL sync).
    state.upsert(doc_uri, "print(2)".to_string(), 8);
    assert_eq!(state.document(doc_uri).expect("doc").text, "print(2)");
    assert_eq!(state.document(doc_uri).expect("doc").version, 8);
}

#[test]
fn set_version_bumps_version_without_changing_text() {
    let mut state = ServerState::new(None, Config::default());
    let doc_uri = "file:///tmp/a.py";
    state.upsert(doc_uri, "print(1)".to_string(), 3);

    // An empty `didChange` advances the version but leaves text/issues alone.
    state.set_version(doc_uri, 4);
    let doc = state.document(doc_uri).expect("doc");
    assert_eq!(doc.version, 4);
    assert_eq!(doc.text, "print(1)");

    // A no-op on an unknown document is harmless.
    state.set_version("file:///tmp/missing.py", 9);
}

#[test]
fn open_uris_and_remove() {
    let mut state = ServerState::new(None, Config::default());
    let a = "file:///tmp/a.py".to_string();
    let b = "file:///tmp/b.py".to_string();
    state.upsert(&a, String::new(), 1);
    state.upsert(&b, String::new(), 1);

    let mut open = state.open_uris();
    open.sort();
    assert_eq!(open, vec![a.clone(), b.clone()]);

    state.remove(&a);
    assert!(state.document(&a).is_none());
    assert_eq!(state.open_uris(), vec![b]);
}

#[test]
fn new_without_root_uses_default_config() {
    let state = ServerState::new(None, Config::default());
    assert_eq!(state.config(), &Config::default());
    assert!(state.root().is_none());
}

#[test]
fn reload_config_relints_open_documents() {
    let first = parse_yaml_config("rules:\n  OWT102: off\n").expect("parses");
    let mut state = ServerState::new(Some("/tmp/ws".to_string()), first);
    assert!(state.config().rule_overrides.contains_key("OWT102"));
    assert_eq!(state.root(), Some("/tmp/ws"));

    let uri = "file:///tmp/ws/tools.py";
    state.upsert(uri, "class Tools:\n    def search(self, query):\n        return query\n".to_string(), 1);
    let ids: Vec<String> = state.document(uri).expect("doc").issues.iter().map(|i| i.rule_id.clone()).collect();
    assert!(ids.contains(&"OWT101".to_string()));
    assert!(!ids.contains(&"OWT102".to_string()));

    let second = parse_yaml_config("rules:\n  OWT102: off\n  OWT101: off\n").expect("parses");
    state.reload_config(Some(second));
    assert!(state.config().rule_overrides.contains_key("OWT101"));
    let ids: Vec<String> = state.document(uri).expect("doc").issues.iter().map(|i| i.rule_id.clone()).collect();
    assert!(!ids.contains(&"OWT101".to_string()));
    assert_eq!(state.document(uri).expect("doc").version, 1);
}

#[test]
fn request_ids_increase() {
    let mut state = ServerState::new(None, Config::default());
    assert_eq!(state.next_request_id(), 1);
    assert_eq!(state.next_request_id(), 2);
    assert!(!state.diagnostic_refresh_support());
    state.set_diagnostic_refresh_support(true);
    assert!(state.diagnostic_refresh_support());
}

#[test]
fn diagnostics_follow_cached_findings() {
    let mut state = ServerState::new(None, Config::default());
    let uri = "file:///tmp/d.py";
    state.upsert(uri, "class Tools:\n    def search(self, query):\n        return query\n".to_string(), 5);
    let (diags, version) = state.diagnostics(uri).expect("document open");
    assert_eq!(version, 5);
    assert_eq!(diags.len(), state.document(uri).expect("doc").issues.len());
    assert!(state.diagnostics("file:///tmp/none.py").is_none());
}

#[test]
fn document_path_prefers_file_path_then_url_path_then_uri() {
    assert_eq!(
        document_path(Some("/tmp/a.py".to_string()), "file:///tmp/a.py"),
        "/tmp/a.py"
    );
    assert_eq!(document_path(None, "untitled:/Untitled-1.py"), "/Untitled-1.py");
    assert_eq!(document_path(None, "untitled:Untitled-1.py"), "Untitled-1.py");
    assert_eq!(document_path(None, "relative/tools.py"), "relative/tools.py");
}

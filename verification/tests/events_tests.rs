use owui_lint::config::{parse_yaml_config, Config};
use owui_lint::server::events::{
    disable_request, handle_event, publish_all, DocumentEvent, Publication,
};
use owui_lint::server::state::ServerState;

const TOOLS: &str = "class Tools:\n    def search(self, query):\n        return query\n";

fn opened(uri: &str, text: &str, version: i32) -> DocumentEvent {
    DocumentEvent::Opened {
        uri: uri.to_string(),
        text: text.to_string(),
        version,
    }
}

#[test]
fn opening_a_document_publishes_its_findings() {
    let mut state = ServerState::new(None, Config::default());
    let uri = "file:///tmp/ws/tools.py";
    let published = handle_event(&mut state, opened(uri, TOOLS, 3));
    let doc = state.document(uri).expect("document stored");
    assert_eq!(doc.version, 3);
    assert!(doc.issues.iter().any(|i| i.rule_id == "OWT101"));
    match published {
        Some(Publication::Findings {
            uri: published_uri,
            diagnostics,
            version,
        }) => {
            assert_eq!(published_uri, uri);
            assert_eq!(version, 3);
            assert_eq!(diagnostics.len(), doc.issues.len());
            assert!(diagnostics.iter().any(|d| d.code == "OWT101"));
        }
        _ => panic!("expected findings"),
    }
}

#[test]
fn a_change_with_text_relints_and_publishes() {
    let mut state = ServerState::new(None, Config::default());
    let uri = "file:///tmp/ws/tools.py";
    handle_event(&mut state, opened(uri, "print(1)\n", 1));
    let published = handle_event(
        &mut state,
        DocumentEvent::Changed {
            uri: uri.to_string(),
            version: 2,
            text: Some(TOOLS.to_string()),
        },
    );
    assert_eq!(state.document(uri).expect("doc").text, TOOLS);
    assert!(matches!(published, Some(Publication::Findings { version: 2, .. })));
}

#[test]
fn an_empty_change_only_moves_the_version() {
    let mut state = ServerState::new(None, Config::default());
    let uri = "file:///tmp/ws/tools.py";
    handle_event(&mut state, opened(uri, TOOLS, 1));
    let before = state.document(uri).expect("doc").issues.len();
    let published = handle_event(
        &mut state,
        DocumentEvent::Changed {
            uri: uri.to_string(),
            version: 5,
            text: None,
        },
    );
    assert!(published.is_none());
    let doc = state.document(uri).expect("doc");
    assert_eq!(doc.version, 5);
    assert_eq!(doc.text, TOOLS);
    assert_eq!(doc.issues.len(), before);
}

#[test]
fn closing_a_document_clears_its_diagnostics() {
    let mut state = ServerState::new(None, Config::default());
    let uri = "file:///tmp/ws/tools.py";
    handle_event(&mut state, opened(uri, TOOLS, 1));
    let published = handle_event(
        &mut state,
        DocumentEvent::Closed {
            uri: uri.to_string(),
        },
    );
    assert!(state.document(uri).is_none());
    match published {
        Some(Publication::Cleared { uri: cleared }) => assert_eq!(cleared, uri),
        _ => panic!("expected a clearing publication"),
    }
}

#[test]
fn disable_request_needs_the_command_an_argument_and_a_root() {
    let with_root = ServerState::new(Some("/tmp/ws".to_string()), Config::default());
    let without_root = ServerState::new(None, Config::default());
    assert_eq!(
        disable_request(&with_root, "owui-lint.disableRule", Some("OWT101")),
        Some(("OWT101".to_string(), "/tmp/ws".to_string()))
    );
    assert_eq!(disable_request(&with_root, "other.command", Some("OWT101")), None);
    assert_eq!(disable_request(&with_root, "owui-lint.disableRule", None), None);
    assert_eq!(disable_request(&without_root, "owui-lint.disableRule", Some("OWT101")), None);
}

#[test]
fn publish_all_covers_every_open_document_after_a_reload() {
    let mut state = ServerState::new(Some("/tmp/ws".to_string()), Config::default());
    handle_event(&mut state, opened("file:///tmp/ws/a.py", TOOLS, 1));
    handle_event(&mut state, opened("file:///tmp/ws/b.py", "print(1)\n", 4));
    state.reload_config(Some(parse_yaml_config("rules:\n  OWT101: off\n").expect("parses")));
    let all = publish_all(&state);
    assert_eq!(all.len(), 2);
    match &all[0] {
        Some(Publication::Findings {
            uri, diagnostics, version,
        }) => {
            assert_eq!(uri, "file:///tmp/ws/a.py");
            assert_eq!(*version, 1);
            assert!(diagnostics.iter().all(|d| d.code != "OWT101"));
        }
        _ => panic!("expected findings for the first document"),
    }
    assert!(matches!(&all[1], Some(Publication::Findings { version: 4, .. })));
}

//! The language server's decisions, driven through its state: what is
//! published after opening, changing and closing documents, and what a
//! disable-rule command changes.

use owui_lint::config::{parse_yaml_config, Config};
use owui_lint::server::code_actions::{
    config_with_rule_disabled, disable_rule_title, owui_rule_id, CodeActionRecord,
    DiagnosticRef,
};
use owui_lint::server::diagnostics::DIAGNOSTIC_SOURCE;
use owui_lint::server::state::ServerState;

const TOOLS_SOURCE: &str = "class Tools:\n    def search(self, query):\n        return query\n";
/// A corrected Tools class: the method is async and documented, so the
/// non-async (OWT102) and missing-docstring (OWT101) findings disappear.
const TOOLS_SOURCE_FIXED: &str =
    "class Tools:\n    async def search(self, query):\n        \"\"\"Search.\"\"\"\n        return query\n";

fn codes(state: &ServerState, uri: &str) -> Vec<String> {
    match state.diagnostics(uri) {
        Some((records, _)) => records.into_iter().map(|d| d.code).collect(),
        None => Vec::new(),
    }
}

#[test]
fn server_publishes_diagnostics_and_offers_quick_fix() {
    let mut state = ServerState::new(None, Config::default());
    let uri = "file:///tmp/owui_lsp_test_tools.py";
    state.upsert(uri, TOOLS_SOURCE.to_string(), 1);

    let (diagnostics, version) = state.diagnostics(uri).expect("published");
    assert_eq!(version, 1);
    let codes: Vec<String> = diagnostics.iter().map(|d| d.code.clone()).collect();
    assert!(
        codes.iter().any(|code| code == "OWT101"),
        "expected missing-docstring finding, got {codes:?}"
    );
    assert!(
        codes.iter().any(|code| code == "OWT102"),
        "expected non-async finding, got {codes:?}"
    );

    let owt102 = diagnostics
        .iter()
        .find(|d| d.code == "OWT102")
        .expect("OWT102 diagnostic present");
    let reference = DiagnosticRef {
        rule_id: owui_rule_id(Some(owt102.source.as_str()), Some(owt102.code.as_str()))
            .map(|s| s.to_string()),
        line: owt102.line,
    };
    let actions = state.code_actions(uri, &[reference]).expect("actions");
    let titles: Vec<String> = actions
        .iter()
        .map(|action| match action {
            CodeActionRecord::Fix { fix, .. } => fix.title.clone(),
            CodeActionRecord::Disable { rule_id, .. } => disable_rule_title(rule_id),
        })
        .collect();
    assert!(
        titles.iter().any(|title| title == "Make method async"),
        "expected an async quick-fix, got {titles:?}"
    );
    assert!(
        titles.iter().any(|title| title.contains("Disable OWT102")),
        "expected a disable-rule action, got {titles:?}"
    );
    let edit = actions
        .iter()
        .find_map(|action| match action {
            CodeActionRecord::Fix { fix, .. } if fix.title == "Make method async" => {
                Some(fix.clone())
            }
            _ => None,
        })
        .expect("async code action present");
    assert_eq!(edit.new_text, "async ");
    assert_eq!(edit.line, 1);
    assert_eq!(edit.character, 4);
    assert_eq!(DIAGNOSTIC_SOURCE, owt102.source);
}

#[test]
fn execute_command_disables_rule_and_refreshes_open_documents() {
    let mut state = ServerState::new(Some("/tmp/ws".to_string()), Config::default());
    let uri_a = "file:///tmp/owui_cmd_a.py";
    let uri_b = "file:///tmp/owui_cmd_b.py";
    state.upsert(uri_a, TOOLS_SOURCE.to_string(), 1);
    assert!(codes(&state, uri_a).contains(&"OWT102".to_string()), "doc A should initially report OWT102");
    state.upsert(uri_b, TOOLS_SOURCE.to_string(), 1);
    assert!(codes(&state, uri_b).contains(&"OWT102".to_string()), "doc B should initially report OWT102");

    // The command writes the override and the server reloads its config.
    let written = config_with_rule_disabled("", "OWT102");
    assert!(written.contains("OWT102: off"), "config: {written:?}");
    let reloaded = parse_yaml_config(&written).expect("parses");
    state.reload_config(Some(reloaded));

    for uri in state.open_uris() {
        let codes = codes(&state, &uri);
        assert!(
            !codes.contains(&"OWT102".to_string()),
            "OWT102 should be silenced for {uri} after disable, got {codes:?}"
        );
        assert!(
            codes.contains(&"OWT101".to_string()),
            "OWT101 should remain for {uri}, got {codes:?}"
        );
    }
}

#[test]
fn did_change_relints_updated_buffer() {
    let mut state = ServerState::new(None, Config::default());
    let uri = "file:///tmp/owui_change.py";
    state.upsert(uri, TOOLS_SOURCE.to_string(), 1);
    assert!(
        codes(&state, uri).contains(&"OWT102".to_string()),
        "non-async finding expected before the edit"
    );

    state.upsert(uri, TOOLS_SOURCE_FIXED.to_string(), 2);
    let after = codes(&state, uri);
    assert!(
        !after.contains(&"OWT102".to_string()),
        "OWT102 should be gone after the async edit, got {after:?}"
    );
    assert!(
        !after.contains(&"OWT101".to_string()),
        "OWT101 should be gone once a docstring exists, got {after:?}"
    );
}

#[test]
fn did_close_clears_diagnostics() {
    let mut state = ServerState::new(None, Config::default());
    let uri = "file:///tmp/owui_close.py";
    state.upsert(uri, TOOLS_SOURCE.to_string(), 1);
    assert!(!codes(&state, uri).is_empty(), "open document should report findings");

    state.remove(uri);
    assert!(
        state.diagnostics(uri).is_none(),
        "closing a document should clear its diagnostics"
    );
}

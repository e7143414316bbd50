use owui_lint::config::{parse_yaml_config, Config};
use owui_lint::analysis::SourceFile;
use owui_lint::linter::lint_files;
use owui_lint::models::SeverityOverride;
use owui_lint::server::code_actions::{
    config_with_rule_disabled, disable_command_title, disable_rule_title, owui_rule_id,
    CodeActionRecord, DiagnosticRef, QuickFix, DISABLE_RULE_COMMAND,
};
use owui_lint::server::diagnostics::DIAGNOSTIC_SOURCE;
use owui_lint::server::state::ServerState;

const URI: &str = "file:///tmp/owui_code_action_test.py";

/// A diagnostic of this server for `rule_id` anchored at `line` (0-indexed).
fn diagnostic(rule_id: &str, line: u32) -> DiagnosticRef {
    DiagnosticRef {
        rule_id: owui_rule_id(Some(DIAGNOSTIC_SOURCE), Some(rule_id)).map(|s| s.to_string()),
        line,
    }
}

fn state_with(text: &str) -> ServerState {
    let mut state = ServerState::new(None, Config::default());
    state.upsert(URI, text.to_string(), 1);
    state
}

fn fix_titled(actions: &[CodeActionRecord], title: &str) -> Option<QuickFix> {
    actions.iter().find_map(|action| match action {
        CodeActionRecord::Fix { fix, .. } if fix.title == title => Some(fix.clone()),
        _ => None,
    })
}

#[test]
fn async_fix_inserts_async_before_def() {
    let source = "class Tools:\n    def search(self, query):\n        return query\n";
    let state = state_with(source);
    // `def search` is on line index 1, indented by 4 spaces.
    let actions = state
        .code_actions(URI, &[diagnostic("OWT102", 1)])
        .expect("actions present");
    let edit = fix_titled(&actions, "Make method async").expect("async fix present");

    assert_eq!(edit.new_text, "async ");
    // Inserted exactly at the `def` column (4), zero-width.
    assert_eq!((edit.line, edit.character), (1, 4));
}

#[test]
fn header_field_fix_multiline_inserts_inside_docstring() {
    let source = "\"\"\"\ntitle: My Tool\n\"\"\"\n";
    let state = state_with(source);
    // OWUI030 (missing version) anchored at the opening quote line (index 0).
    let actions = state
        .code_actions(URI, &[diagnostic("OWUI030", 0)])
        .expect("actions present");
    let edit = fix_titled(&actions, "Add `version: 0.1.0` to module header")
        .expect("header fix present");

    // Inserted at the start of line 1 — between the opening quote and content.
    assert_eq!((edit.line, edit.character), (1, 0));
    assert_eq!(edit.new_text, "version: 0.1.0\n");
}

#[test]
fn header_field_fix_singleline_expands_to_multiline() {
    // A single-line docstring must not get the field appended on the line
    // after the (already closed) docstring.
    let source = "\"\"\"title: My Tool\"\"\"\n";
    let state = state_with(source);
    let actions = state
        .code_actions(URI, &[diagnostic("OWUI030", 0)])
        .expect("actions present");
    let edit = fix_titled(&actions, "Add `version: 0.1.0` to module header")
        .expect("header fix present");

    // The edit must be applied on the docstring line (index 0), before the
    // closing quotes — not on the next line.
    assert_eq!(edit.line, 0);
    let close_col = source.rfind("\"\"\"").expect("closing quotes") as u32;
    assert_eq!(edit.character, close_col);

    // Applying the edit (a single-line, zero-width insertion at close_col)
    // yields a docstring that still encloses the new field.
    let mut patched = source.to_string();
    patched.insert_str(close_col as usize, &edit.new_text);
    let field_pos = patched.find("version: 0.1.0").expect("field inserted");
    let close_pos = patched.rfind("\"\"\"").expect("closing quotes remain");
    assert!(
        field_pos < close_pos,
        "field must sit inside the docstring: {patched:?}"
    );
}

#[test]
fn disable_action_always_offered_with_command() {
    let source = "class Tools:\n    def search(self, query):\n        return query\n";
    let state = state_with(source);
    let actions = state
        .code_actions(URI, &[diagnostic("OWT102", 1)])
        .expect("actions present");
    let disable = actions
        .iter()
        .find_map(|action| match action {
            CodeActionRecord::Disable { rule_id, .. } => Some(rule_id.clone()),
            _ => None,
        })
        .expect("disable action present");

    assert_eq!(disable_rule_title(&disable), "Disable OWT102 for this project");
    assert_eq!(disable_command_title(&disable), "Disable OWT102");
    assert_eq!(DISABLE_RULE_COMMAND, "owui-lint.disableRule");
    assert_eq!(disable, "OWT102");
}

#[test]
fn non_owui_diagnostics_yield_no_actions() {
    let state = state_with("class Tools:\n    def search(self):\n        pass\n");
    let foreign = DiagnosticRef {
        rule_id: owui_rule_id(Some("pyright"), Some("OWT102")).map(|s| s.to_string()),
        line: 1,
    };
    assert!(state.code_actions(URI, &[foreign]).is_none());
}

#[test]
fn docstring_fix_inserts_stub_after_signature() {
    let source = "class Tools:\n    async def search(\n        self, query\n    ):\n        return query\n";
    let state = state_with(source);
    let actions = state
        .code_actions(URI, &[diagnostic("OWT101", 1)])
        .expect("actions present");
    let edit = fix_titled(&actions, "Add docstring stub").expect("docstring fix present");
    assert_eq!((edit.line, edit.character), (4, 0));
    assert_eq!(
        edit.new_text,
        "        \"\"\"TODO: describe what this tool does.\"\"\"\n"
    );
}

#[test]
fn disabling_a_rule_appends_an_override() {
    assert_eq!(config_with_rule_disabled("", "OWT102"), "rules:\n  OWT102: off\n");
    assert_eq!(
        config_with_rule_disabled("lint:\n  include:\n    - \"**/*.py\"", "OWP202"),
        "lint:\n  include:\n    - \"**/*.py\"\nrules:\n  OWP202: off\n"
    );
    assert_eq!(config_with_rule_disabled("a\n", "X"), "a\nrules:\n  X: off\n");
}

#[test]
fn disabled_rule_reads_back_off() {
    for content in [
        "",
        "lint:\n  include:\n    - \"**/*.py\"",
        "rules:\n  OWT101: error\n",
        "rules:\n  owt101: warning\nlint:\n  exclude:\n    - build/**\n",
    ] {
        let text = config_with_rule_disabled(content, "OWT101");
        let config = parse_yaml_config(&text).expect("parses");
        assert_eq!(
            config.rule_overrides.get("OWT101"),
            Some(SeverityOverride::Off),
            "{text:?}"
        );
    }
}

#[test]
fn disabled_rule_is_no_longer_reported() {
    let files = vec![SourceFile {
        path: "tools.py".to_string(),
        contents: Ok("class Tools:\n    def search(self, query):\n        return query\n".to_string()),
    }];
    let (before, _) = lint_files(&files, &Config::default());
    assert!(before.iter().any(|i| i.rule_id == "OWT101"));
    let text = config_with_rule_disabled("rules:\n  OWT101: error\n", "OWT101");
    let config = parse_yaml_config(&text).expect("parses");
    let (after, _) = lint_files(&files, &config);
    assert!(after.iter().all(|i| i.rule_id != "OWT101"));
}

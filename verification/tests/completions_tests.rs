use owui_lint::config::Config;
use owui_lint::server::completions::{
    completion_set, in_module_docstring, snippet_markdown, snippets_for, CompletionSet,
};
use owui_lint::server::state::ServerState;

const MULTILINE_DOC: &str = "\"\"\"\ntitle: Tool\nversion: 0.1.0\n\"\"\"\n\nclass Tools:\n    pass\n";
const SINGLELINE_DOC: &str = "\"\"\"title: Tool\"\"\"\n\nclass Tools:\n    pass\n";

#[test]
fn in_module_docstring_multiline() {
    // Lines 0..=3 are the docstring (open, two fields, close); line 5 is code.
    assert!(in_module_docstring(MULTILINE_DOC, 0));
    assert!(in_module_docstring(MULTILINE_DOC, 1));
    assert!(in_module_docstring(MULTILINE_DOC, 3));
    assert!(!in_module_docstring(MULTILINE_DOC, 5));
}

#[test]
fn in_module_docstring_singleline_only_its_own_line() {
    assert!(in_module_docstring(SINGLELINE_DOC, 0));
    assert!(!in_module_docstring(SINGLELINE_DOC, 1));
    assert!(!in_module_docstring(SINGLELINE_DOC, 2));
}

#[test]
fn in_module_docstring_unterminated_is_not_recognized() {
    // An unterminated triple-quote is a syntax error, so the analyzer does
    // not report a module docstring and no header snippets are offered.
    let src = "\"\"\"\ntitle: Tool\nstill inside\n";
    assert!(!in_module_docstring(src, 0));
    assert!(!in_module_docstring(src, 2));
}

#[test]
fn in_module_docstring_false_without_docstring() {
    let src = "class Tools:\n    pass\n";
    assert!(!in_module_docstring(src, 0));
    assert!(!in_module_docstring(src, 1));
}

fn completion_at(source: &str, line: u32) -> Vec<String> {
    let uri = "file:///tmp/owui_completion_test.py";
    let mut state = ServerState::new(None, Config::default());
    state.upsert(uri, source.to_string(), 1);
    state
        .completion(uri, line)
        .expect("document is open")
        .into_iter()
        .map(|item| item.label.to_string())
        .collect()
}

#[test]
fn completion_offers_header_fields_inside_docstring() {
    let labels = completion_at(MULTILINE_DOC, 1);
    assert!(labels.iter().any(|l| l == "version"), "got {labels:?}");
    assert!(labels.iter().any(|l| l == "title"), "got {labels:?}");
}

#[test]
fn completion_offers_class_skeletons_at_top_level() {
    let labels = completion_at("\n", 0);
    assert!(labels.iter().any(|l| l == "owui-tools"), "got {labels:?}");
    assert!(labels.iter().any(|l| l == "owui-pipe"), "got {labels:?}");
    assert!(labels.iter().any(|l| l == "owui-event"), "got {labels:?}");
}

#[test]
fn completion_offers_members_when_indented() {
    // Inside a class body (indented), offer member snippets, not skeletons.
    let source = "class Tools:\n    \n";
    let labels = completion_at(source, 1);
    assert!(labels.iter().any(|l| l == "Valves"), "got {labels:?}");
    assert!(!labels.iter().any(|l| l == "owui-tools"), "got {labels:?}");
}

#[test]
fn completion_none_for_unknown_document() {
    let state = ServerState::new(None, Config::default());
    assert!(state.completion("file:///tmp/owui_unknown.py", 0).is_none());
}

#[test]
fn completion_set_follows_indentation() {
    assert_eq!(completion_set("x = 1\n", 0), CompletionSet::ClassSkeletons);
    assert_eq!(completion_set("class A:\n    x = 1\n", 1), CompletionSet::ClassMembers);
    assert_eq!(completion_set(MULTILINE_DOC, 2), CompletionSet::HeaderFields);
}

#[test]
fn snippet_sets_have_expected_sizes_and_markdown() {
    assert_eq!(snippets_for(CompletionSet::HeaderFields).len(), 5);
    assert_eq!(snippets_for(CompletionSet::ClassSkeletons).len(), 6);
    assert_eq!(snippets_for(CompletionSet::ClassMembers).len(), 7);
    assert_eq!(snippet_markdown("x"), "```python\nx\n```");
}

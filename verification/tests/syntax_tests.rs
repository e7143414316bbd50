use owui_lint::analysis::syntax::detect_syntax_error;

#[test]
fn detects_unclosed_double_quoted_string() {
    let source = "x = \"hello\n";
    let err = detect_syntax_error(source).expect("should detect unclosed string");
    assert!(err.message.contains("Unclosed string literal"));
}

#[test]
fn ignores_delimiters_inside_strings() {
    let source = "value = \"[(not real)]\"\n";
    assert!(
        detect_syntax_error(source).is_none(),
        "delimiters inside strings should be ignored"
    );
}

#[test]
fn reports_unclosed_call_at_its_line() {
    let source = "class Pipe:\n    def pipe(self, body):\n        return body\n    def x(\n";
    let err = detect_syntax_error(source).expect("unclosed parenthesis should be reported");
    assert!(err.line >= 1);
}

#[test]
fn balanced_source_has_no_syntax_error() {
    let source = "def f(a, b):\n    return [a, (b, {1: 2})]\n";
    assert!(detect_syntax_error(source).is_none());
}

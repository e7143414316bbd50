use owui_lint::glob::glob_match;

#[test]
fn supports_double_star() {
    assert!(glob_match("**/*.py", "a/b/c.py"));
    assert!(glob_match("**/*.py", "file.py"));
}

#[test]
fn single_star_does_not_cross_slashes() {
    assert!(glob_match("*.py", "a.py"));
    assert!(!glob_match("*.py", "a/b.py"));
}

#[test]
fn supports_question_mark() {
    assert!(glob_match("file?.py", "file1.py"));
    assert!(!glob_match("file?.py", "file10.py"));
}

#[test]
fn literal_pattern_matches_only_itself() {
    assert!(glob_match("src/main.py", "src/main.py"));
    assert!(!glob_match("src/main.py", "src/main.pyc"));
    assert!(!glob_match("src/main.py", "src/Main.py"));
}

#[test]
fn double_star_alone_matches_everything() {
    assert!(glob_match("**", ""));
    assert!(glob_match("**", "a/b/c"));
}

#[test]
fn question_mark_does_not_match_slash() {
    assert!(!glob_match("a?b", "a/b"));
}

#[test]
fn excluded_directory_pattern_matches_nested_files() {
    assert!(glob_match("**/__pycache__/**", "pkg/__pycache__/x.py"));
    assert!(glob_match(".venv/**", ".venv/lib/site.py"));
    assert!(!glob_match(".venv/**", "src/.venv.py"));
}

#[test]
fn python_files_pattern_matches_at_any_depth() {
    for path in ["x.py", "a/x.py", "a/b/c/x.py", ".py", "a/.py"] {
        assert!(glob_match("**/*.py", path), "{path}");
    }
    assert!(!glob_match("**/*.py", "a/x.pyc"));
    assert!(!glob_match("**/*.py", "a/x.py/"));
}

use owui_lint::config::Config;
use owui_lint::linter::{
    apply_rule_overrides, extension_type, included, is_sensitive_field_name, lint_files,
    lint_source, normalize_path, path_less, path_same, select_sources, sort_issues, Candidate, ExtensionKind,
};
use owui_lint::analysis::SourceFile;
use owui_lint::models::{Issue, LintSummary, Severity, SeverityOverride};
use owui_lint::rules::issue;

fn lint_text(name: &str, content: &str, config: &Config) -> (Vec<Issue>, LintSummary) {
    let files = vec![SourceFile {
        path: name.to_string(),
        contents: Ok(content.to_string()),
    }];
    lint_files(&files, config)
}

fn chars(s: &str) -> Vec<char> {
    s.chars().collect()
}

#[test]
fn reports_syntax_error() {
    let config = Config::default();
    let (issues, summary) = lint_text(
        "broken.py",
        "class Pipe:\n    async def pipe(self, body: dict):\n        return body\n    def oops(\n",
        &config,
    );

    assert_eq!(summary.errors, 1);
    assert!(issues.iter().any(|issue| issue.rule_id == "OWUI001"));
}

#[test]
fn pipe_with_filter_methods_is_warning() {
    let config = Config::default();
    let (issues, _) = lint_text(
        "pipe.py",
        "from pydantic import BaseModel\n\nclass Pipe:\n    class Valves(BaseModel):\n        pass\n\n    def __init__(self):\n        self.valves = self.Valves()\n\n    async def inlet(self, body: dict) -> dict:\n        return body\n\n    async def pipe(self, body: dict) -> str:\n        return \"ok\"\n",
        &config,
    );

    assert!(issues
        .iter()
        .any(|issue| issue.rule_id == "OWP201" && issue.severity == Severity::Warning));
}

#[test]
fn tools_method_without_docstring_warns() {
    let config = Config::default();
    let (issues, _) = lint_text(
        "tools.py",
        "from pydantic import BaseModel\n\nclass Tools:\n    class Valves(BaseModel):\n        pass\n\n    def __init__(self):\n        self.valves = self.Valves()\n\n    async def get_weather(self, city: str) -> str:\n        return city\n",
        &config,
    );

    assert!(issues
        .iter()
        .any(|issue| issue.rule_id == "OWT101" && issue.severity == Severity::Warning));
}

#[test]
fn rule_override_can_disable_warning() {
    let mut config = Config::default();
    config
        .rule_overrides
        .insert(&chars("OWT101"), SeverityOverride::Off);

    let (issues, summary) = lint_text(
        "tools.py",
        "from pydantic import BaseModel\n\nclass Tools:\n    class Valves(BaseModel):\n        pass\n\n    def __init__(self):\n        self.valves = self.Valves()\n\n    async def get_weather(self, city: str) -> str:\n        return city\n",
        &config,
    );

    assert!(!issues.iter().any(|issue| issue.rule_id == "OWT101"));
    assert_eq!(summary.warnings, 0);
}

#[test]
fn filter_with_stream_only_does_not_raise_owf300() {
    let config = Config::default();
    let (issues, _) = lint_text(
        "filter.py",
        "from pydantic import BaseModel\n\nclass Filter:\n    class Valves(BaseModel):\n        pass\n\n    def __init__(self):\n        self.valves = self.Valves()\n\n    async def stream(self, event):\n        return event\n",
        &config,
    );

    assert!(!issues.iter().any(|issue| issue.rule_id == "OWF300"));
}

#[test]
fn pipeline_with_filter_hooks_does_not_raise_owpl500() {
    let config = Config::default();
    let (issues, _) = lint_text(
        "pipeline.py",
        "from pydantic import BaseModel\n\nclass Pipeline:\n    class Valves(BaseModel):\n        pass\n\n    def __init__(self):\n        self.name = \"Filter Pipeline\"\n        self.valves = self.Valves()\n\n    async def inlet(self, body: dict, user: dict) -> dict:\n        return body\n",
        &config,
    );

    assert!(!issues.iter().any(|issue| issue.rule_id == "OWPL500"));
}

#[test]
fn multiline_pipe_signature_does_not_raise_owp200() {
    let config = Config::default();
    let (issues, _) = lint_text(
        "pipe.py",
        "from pydantic import BaseModel\n\nclass Pipe:\n    class Valves(BaseModel):\n        pass\n\n    def __init__(self):\n        self.valves = self.Valves()\n\n    async def pipe(\n        self,\n        body: dict,\n    ) -> dict:\n        return body\n",
        &config,
    );

    assert!(!issues.iter().any(|issue| issue.rule_id == "OWP200"));
}

#[test]
fn missing_version_in_header_warns_owui030() {
    let config = Config::default();
    let (issues, _) = lint_text(
        "tools.py",
        "\"\"\"\ntitle: My Tool\nrequirements: requests==2.31.0\n\"\"\"\nfrom pydantic import BaseModel\n\nclass Tools:\n    class Valves(BaseModel):\n        pass\n\n    def __init__(self):\n        self.valves = self.Valves()\n\n    async def do_thing(self, x: str) -> str:\n        \"\"\"Does a thing.\"\"\"\n        return x\n",
        &config,
    );

    assert!(issues
        .iter()
        .any(|issue| issue.rule_id == "OWUI030" && issue.severity == Severity::Warning));
    assert!(!issues.iter().any(|issue| issue.rule_id == "OWUI031"));
}

#[test]
fn unpinned_requirements_in_header_warns_owui031() {
    let config = Config::default();
    let (issues, _) = lint_text(
        "tools.py",
        "\"\"\"\ntitle: My Tool\nversion: 0.1.0\nrequirements: requests, httpx==0.27.0\n\"\"\"\nfrom pydantic import BaseModel\n\nclass Tools:\n    class Valves(BaseModel):\n        pass\n\n    def __init__(self):\n        self.valves = self.Valves()\n\n    async def do_thing(self, x: str) -> str:\n        \"\"\"Does a thing.\"\"\"\n        return x\n",
        &config,
    );

    assert!(issues
        .iter()
        .any(|issue| issue.rule_id == "OWUI031" && issue.severity == Severity::Warning));
    assert!(!issues.iter().any(|issue| issue.rule_id == "OWUI030"));
}

#[test]
fn pinned_requirements_and_version_no_owui030_031() {
    let config = Config::default();
    let (issues, _) = lint_text(
        "tools.py",
        "\"\"\"\ntitle: My Tool\nversion: 1.2.3\nrequirements: requests==2.31.0, httpx==0.27.0\n\"\"\"\nfrom pydantic import BaseModel\n\nclass Tools:\n    class Valves(BaseModel):\n        pass\n\n    def __init__(self):\n        self.valves = self.Valves()\n\n    async def do_thing(self, x: str) -> str:\n        \"\"\"Does a thing.\"\"\"\n        return x\n",
        &config,
    );

    assert!(!issues.iter().any(|issue| issue.rule_id == "OWUI030"));
    assert!(!issues.iter().any(|issue| issue.rule_id == "OWUI031"));
}

#[test]
fn unpinned_requirement_message_names_first_requirement() {
    let config = Config::default();
    let (issues, _) = lint_source(
        "tools.py",
        "\"\"\"\ntitle: T\nversion: 1\nrequirements: requests, numpy\n\"\"\"\n",
        &config,
    );
    let found = issues
        .iter()
        .find(|issue| issue.rule_id == "OWUI031")
        .expect("OWUI031 present");
    assert_eq!(
        found.message,
        "Requirements without a version specifier detected: requests, numpy. Consider adding a specifier (e.g. `requests>=1.2.3` or `requests==1.2.3`)."
    );
    assert_eq!(found.line, 1);
    assert_eq!(found.column, 1);
}

#[test]
fn syntax_error_message_and_unreadable_file() {
    let config = Config::default();
    let files = vec![SourceFile {
        path: "gone.py".to_string(),
        contents: Err("permission denied".to_string()),
    }];
    let (issues, summary) = lint_files(&files, &config);
    assert_eq!(issues.len(), 1);
    assert_eq!(issues[0].rule_id, "OWUI001");
    assert_eq!(
        issues[0].message,
        "Basic Python scan failed: Unable to read file: permission denied"
    );
    assert_eq!(summary.files_scanned, 1);
    assert_eq!(summary.errors, 1);
}

#[test]
fn tools_class_without_valves_reports_owui020_and_tool_checks() {
    let config = Config::default();
    let (issues, summary) = lint_source(
        "tools.py",
        "class Tools:\n    def search(self, query):\n        return query\n",
        &config,
    );
    let ids: Vec<&str> = issues.iter().map(|i| i.rule_id.as_str()).collect();
    assert_eq!(ids, vec!["OWUI020", "OWT101", "OWT102"]);
    assert_eq!(
        issues[0].message,
        "Tools should define an inner Valves or UserValves class for configuration."
    );
    assert_eq!(issues[1].message, "Tool method 'search' should include a descriptive docstring.");
    assert_eq!(issues[2].message, "Tool method 'search' should be async.");
    assert_eq!(summary.warnings + summary.errors, issues.len());
}

#[test]
fn mixed_extension_classes_are_an_error() {
    let config = Config::default();
    let (issues, _) = lint_source(
        "mixed.py",
        "class Pipe:\n    pass\n\nclass Filter:\n    pass\n",
        &config,
    );
    let mixed = issues
        .iter()
        .find(|issue| issue.rule_id == "OWUI011")
        .expect("OWUI011 present");
    assert_eq!(
        mixed.message,
        "Mixed extension types in one file are not supported: Pipe, Filter."
    );
    assert_eq!(mixed.severity, Severity::Error);
    assert_eq!(mixed.line, 1);
}

#[test]
fn suspicious_module_without_extension_class_warns_owui010() {
    let config = Config::default();
    let (issues, _) = lint_source("x.py", "class MyTools:\n    async def pipe(self):\n        pass\n", &config);
    assert!(issues.iter().any(|issue| issue.rule_id == "OWUI010"));
    let (issues, _) = lint_source("y.py", "class Helper:\n    def run(self):\n        pass\n", &config);
    assert!(issues.is_empty());
}

#[test]
fn sensitive_valve_field_without_password_type_warns_owui023() {
    let config = Config::default();
    let (issues, _) = lint_source(
        "tools.py",
        "from pydantic import BaseModel, Field\n\nclass Tools:\n    class Valves(BaseModel):\n        api_key: str = \"\"\n        max_tokens_per_call: int = 5\n\n    def __init__(self):\n        self.valves = self.Valves()\n\n    async def run(self, x: str) -> str:\n        \"\"\"Run.\"\"\"\n        return x\n",
        &config,
    );
    let sensitive: Vec<&Issue> = issues.iter().filter(|i| i.rule_id == "OWUI023").collect();
    assert_eq!(sensitive.len(), 1);
    assert_eq!(sensitive[0].line, 5);
    assert_eq!(
        sensitive[0].message,
        "Valves field 'api_key' looks sensitive but is not masked. Add json_schema_extra={\"input\": {\"type\": \"password\"}} to the Field()."
    );
}

#[test]
fn sensitive_names_need_word_boundaries() {
    assert!(is_sensitive_field_name("api_key"));
    assert!(is_sensitive_field_name("OPENAI_api_key"));
    assert!(is_sensitive_field_name("secret"));
    assert!(!is_sensitive_field_name("secretary"));
    assert!(!is_sensitive_field_name("tokenizer"));
    assert!(!is_sensitive_field_name("max_token_count"));
    assert!(is_sensitive_field_name("auth_token"));
}

#[test]
fn extension_type_recognizes_class_names() {
    assert_eq!(extension_type("Tools"), Some(ExtensionKind::Tools));
    assert_eq!(extension_type("Pipeline"), Some(ExtensionKind::Pipeline));
    assert_eq!(extension_type("tools"), None);
}

#[test]
fn override_error_promotes_and_off_removes() {
    let mut config = Config::default();
    config.rule_overrides.insert(&chars("OWT101"), SeverityOverride::Error);
    config.rule_overrides.insert(&chars("OWT102"), SeverityOverride::Off);
    let raw = vec![
        issue("OWT101", "a.py", 2, 5, "doc"),
        issue("OWT102", "a.py", 2, 5, "async"),
        issue("OWUI020", "a.py", 1, 1, "valves"),
    ];
    let out = apply_rule_overrides(raw, &config);
    assert_eq!(out.len(), 2);
    assert_eq!(out[0].rule_id, "OWT101");
    assert_eq!(out[0].severity, Severity::Error);
    assert_eq!(out[1].rule_id, "OWUI020");
    assert_eq!(out[1].severity, Severity::Warning);
}

#[test]
fn findings_sort_by_path_line_column_rule() {
    let raw = vec![
        issue("OWT102", "b.py", 1, 1, "m"),
        issue("OWT101", "a.py", 3, 1, "m"),
        issue("OWT102", "a.py", 2, 7, "m"),
        issue("OWT101", "a.py", 2, 7, "m"),
        issue("OWUI020", "a/b.py", 1, 1, "m"),
        issue("OWUI020", "a-b.py", 1, 1, "m"),
    ];
    let sorted = sort_issues(&raw);
    let keys: Vec<(String, usize, usize, String)> = sorted
        .iter()
        .map(|i| (i.path.clone(), i.line, i.column, i.rule_id.clone()))
        .collect();
    assert_eq!(
        keys,
        vec![
            ("a/b.py".to_string(), 1, 1, "OWUI020".to_string()),
            ("a-b.py".to_string(), 1, 1, "OWUI020".to_string()),
            ("a.py".to_string(), 2, 7, "OWT101".to_string()),
            ("a.py".to_string(), 2, 7, "OWT102".to_string()),
            ("a.py".to_string(), 3, 1, "OWT101".to_string()),
            ("b.py".to_string(), 1, 1, "OWT102".to_string()),
        ]
    );
}

#[test]
fn sorting_keeps_equal_findings_in_order() {
    let raw = vec![
        issue("OWT101", "a.py", 1, 1, "first"),
        issue("OWT101", "a.py", 1, 1, "second"),
    ];
    let sorted = sort_issues(&raw);
    assert_eq!(sorted[0].message, "first");
    assert_eq!(sorted[1].message, "second");
}

#[test]
fn included_applies_exclusions_then_inclusions() {
    let inc = vec!["**/*.py".to_string()];
    let exc = vec![".venv/**".to_string()];
    assert!(included("src/a.py", "/w/src/a.py", &inc, &exc));
    assert!(!included(".venv/lib/a.py", "/w/.venv/lib/a.py", &inc, &exc));
    assert!(!included("src/a.txt", "/w/src/a.txt", &inc, &exc));
    assert!(included("notes.txt", "/w/notes.txt", &Vec::new(), &exc));
}

#[test]
fn normalize_path_uses_forward_slashes() {
    assert_eq!(normalize_path("a\\b\\c.py"), "a/b/c.py");
    assert_eq!(normalize_path("a/b.py"), "a/b.py");
}

fn candidate(absolute: &str, relative: &str) -> Candidate {
    Candidate {
        absolute: absolute.to_string(),
        relative: relative.to_string(),
    }
}

#[test]
fn select_sources_orders_dedups_and_filters() {
    let candidates = vec![
        candidate("/w/b.py", "b.py"),
        candidate("/w/a/z.py", "a/z.py"),
        candidate("/w/.venv/x.py", ".venv/x.py"),
        candidate("/w/b.py", "b.py"),
        candidate("/w/a-b.py", "a-b.py"),
    ];
    let config = Config::default();
    let selected = select_sources(&candidates, &config.include_patterns, &config.exclude_patterns);
    assert_eq!(selected, vec!["/w/a/z.py", "/w/a-b.py", "/w/b.py"]);
}

#[test]
fn select_sources_with_no_candidates_is_empty() {
    let config = Config::default();
    assert!(select_sources(&[], &config.include_patterns, &config.exclude_patterns).is_empty());
}

#[test]
fn turning_a_rule_off_removes_exactly_its_findings() {
    let files = vec![
        SourceFile {
            path: "tools.py".to_string(),
            contents: Ok("class Tools:\n    def search(self, query):\n        return query\n".to_string()),
        },
        SourceFile {
            path: "pipe.py".to_string(),
            contents: Ok("class Pipe:\n    def pipe(self, body):\n        return body\n".to_string()),
        },
    ];
    let (before, _) = lint_files(&files, &Config::default());
    let off = owui_lint::config::parse_yaml_config("rules:\n  OWT101: off\n").expect("parses");
    let (after, _) = lint_files(&files, &off);
    let expected: Vec<Issue> = before.into_iter().filter(|i| i.rule_id != "OWT101").collect();
    assert_eq!(after, expected);
}

fn unreadable(path: &str) -> SourceFile {
    SourceFile {
        path: path.to_string(),
        contents: Err("gone".to_string()),
    }
}

#[test]
fn report_order_compares_path_components() {
    let files = vec![unreadable("a//c.py"), unreadable("a/b.py")];
    let (issues, _) = lint_files(&files, &Config::default());
    let mut paths: Vec<&str> = issues.iter().map(|i| i.path.as_str()).collect();
    paths.dedup();
    assert_eq!(paths, vec!["a/b.py", "a//c.py"]);

    let files = vec![unreadable("-a.py"), unreadable("./b.py")];
    let (issues, _) = lint_files(&files, &Config::default());
    let mut paths: Vec<&str> = issues.iter().map(|i| i.path.as_str()).collect();
    paths.dedup();
    assert_eq!(paths, vec!["./b.py", "-a.py"]);
}

#[test]
fn path_order_follows_components() {
    assert!(path_less("/w/a/z.py", "/w/a-b.py"));
    assert!(path_less("a/b.py", "a//c.py"));
    assert!(path_same("a//b/./c.py", "a/b/c.py"));
    assert!(!path_same("./a.py", "a.py"));
    assert!(path_less("/x", "x"));
    assert!(path_less("../a", "b"));
}

use owui_lint::analysis::{analyze_file, analyze_source, SourceFile};

fn analyze_text(name: &str, text: &str) -> owui_lint::models::ModuleInfo {
    analyze_file(&SourceFile {
        path: name.to_string(),
        contents: Ok(text.to_string()),
    })
}

#[test]
fn mod_syntax_error_is_detected() {
    let module = analyze_text(
        "broken.py",
        "class Pipe:\n    def pipe(self, body):\n        return body\n    def x(\n",
    );
    assert!(!module.syntax_ok);
    assert!(module.syntax_error.is_some());
}

#[test]
fn mod_methods_and_inner_classes_are_collected() {
    let module = analyze_text(
        "tools.py",
        "class Tools:\n    class Valves(BaseModel):\n        pass\n\n    def __init__(self):\n        self.valves = self.Valves()\n\n    async def get_weather(self, city: str) -> str:\n        \"\"\"Fetch weather\"\"\"\n        return city\n",
    );
    assert!(module.syntax_ok);
    let tools = module
        .classes
        .iter()
        .find(|item| item.name == "Tools")
        .expect("Tools class should be found");
    assert!(tools.inner_class("Valves").is_some());
    assert!(tools.init_assignments.iter().any(|name| name == "valves"));
    let method = tools
        .method("get_weather")
        .expect("method should be collected");
    assert!(method.has_docstring);
}

#[test]
fn mod_multiline_method_signature_is_collected() {
    let module = analyze_text(
        "pipe.py",
        "class Pipe:\n    async def pipe(\n        self,\n        body: dict,\n    ) -> dict:\n        return body\n",
    );
    assert!(module.syntax_ok);
    let pipe = module
        .classes
        .iter()
        .find(|item| item.name == "Pipe")
        .expect("Pipe class should be found");
    assert!(pipe.method("pipe").is_some());
}

#[test]
fn multiline_string_bug() {
    let content = r#"class Filter:
    def __init__(self):
        self.doc = """
some text
    def inlet(self, body):
        pass
"""
    def inlet(self, body):
        pass
"#;
    let info = analyze_source("test_multiline.py", content);
    assert_eq!(info.classes.len(), 1);
    let methods = &info.classes[0].methods;
    assert_eq!(methods.len(), 2, "Methods: {:?}", methods);
    let inlet = methods
        .iter()
        .find(|method| method.name == "inlet")
        .expect("inlet should be detected");
    assert_eq!(inlet.line, 8, "inlet should be from real method, not string");
}

#[test]
fn unreadable_file_is_a_failed_scan() {
    let module = analyze_file(&SourceFile {
        path: "missing.py".to_string(),
        contents: Err("No such file or directory (os error 2)".to_string()),
    });
    assert!(!module.syntax_ok);
    let err = module.syntax_error.expect("error recorded");
    assert_eq!(err.message, "Unable to read file: No such file or directory (os error 2)");
    assert_eq!((err.line, err.column), (1, 1));
}

#[test]
fn module_docstring_and_imports_are_recorded() {
    let module = analyze_source(
        "a.py",
        "\"\"\"\ntitle: X\n\"\"\"\nimport os\nfrom typing import List\n\ndef helper(a, b):\n    return a\n",
    );
    assert!(module.syntax_ok);
    assert_eq!(module.module_docstring_line, Some(1));
    assert!(module.module_docstring.expect("docstring").contains("title: X"));
    assert!(module.imports.iter().any(|i| i == "os"));
    assert_eq!(module.functions.len(), 1);
    assert_eq!(module.functions[0].args, vec!["a".to_string(), "b".to_string()]);
}

#[test]
fn analysis_syntax_error_is_detected() {
    mod_syntax_error_is_detected();
}

#[test]
fn analysis_methods_and_inner_classes_are_collected() {
    mod_methods_and_inner_classes_are_collected();
}

#[test]
fn analysis_multiline_method_signature_is_collected() {
    mod_multiline_method_signature_is_collected();
}

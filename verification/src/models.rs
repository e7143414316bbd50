//! The data the analyzer collects and the findings the linter reports.

use vstd::prelude::*;
use crate::text::chars_of;

verus! {

/// How serious a finding is.
#[derive(Debug, Clone, Copy, PartialEq, Eq, Structural)]
pub enum Severity {
    Error,
    Warning,
}

impl Severity {
    /// The lowercase name of the severity (`error` or `warning`).
    pub open spec fn name(self) -> Seq<char> {
        match self {
            Severity::Error => "error"@,
            Severity::Warning => "warning"@,
        }
    }

    /// The lowercase name of the severity, as the text output prints it.
    pub fn as_str(&self) -> (r: &'static str)
        ensures
            r@ == self.name(),
    {
        match self {
            Severity::Error => "error",
            Severity::Warning => "warning",
        }
    }
}

/// A severity configured for a rule, or `Off` to silence it.
#[derive(Debug, Clone, Copy, PartialEq, Eq, Structural)]
pub enum SeverityOverride {
    Error,
    Warning,
    Off,
}

/// The ASCII lowercase form of a character.
pub open spec fn lower_char(c: char) -> char {
    if 'A' <= c <= 'Z' {
        ((c as u8) + 32) as u8 as char
    } else {
        c
    }
}

/// The ASCII uppercase form of a character.
pub open spec fn upper_char(c: char) -> char {
    if 'a' <= c <= 'z' {
        ((c as u8) - 32) as u8 as char
    } else {
        c
    }
}

/// `str::to_ascii_lowercase`.
pub open spec fn ascii_lower(s: Seq<char>) -> Seq<char> {
    s.map_values(|c: char| lower_char(c))
}

/// `str::to_ascii_uppercase`.
pub open spec fn ascii_upper(s: Seq<char>) -> Seq<char> {
    s.map_values(|c: char| upper_char(c))
}

pub fn to_lower(c: char) -> (r: char)
    ensures
        r == lower_char(c),
{
    if 'A' <= c && c <= 'Z' {
        let u = (c as u8) + 32;
        u as char
    } else {
        c
    }
}


/// The views of a sequence of strings.
pub open spec fn strs(v: Seq<String>) -> Seq<Seq<char>> {
    v.map_values(|s: String| s@)
}

/// A copy of a string.
pub fn copy_string(s: &String) -> (r: String)
    ensures
        r@ == s@,
{
    s.clone()
}

/// Whether `v` holds a string equal to `s`.
pub open spec fn has_str(v: Seq<String>, s: Seq<char>) -> bool {
    exists|i: int| 0 <= i < v.len() && #[trigger] v[i]@ == s
}

/// Whether `v` holds a string equal to `s`.
pub fn contains_string(v: &Vec<String>, s: &[char]) -> (r: bool)
    ensures
        r == has_str(v@, s@),
{
    let mut i: usize = 0;
    while i < v.len()
        invariant
            i <= v@.len(),
            forall|k: int| 0 <= k < i ==> #[trigger] v@[k]@ != s@,
        decreases v.len() - i,
    {
        let c = chars_of(v[i].as_str());
        if crate::text::chars_eq(c.as_slice(), s) {
            return true;
        }
        i += 1;
    }
    false
}

/// Where the structural scan found a basic syntax problem.
#[derive(Debug, Clone, PartialEq, Eq)]
pub struct SyntaxErrorInfo {
    pub message: String,
    pub line: usize,
    pub column: usize,
    pub text: Option<String>,
}

#[verifier::ext_equal]
pub struct SyntaxErrorModel {
    pub message: Seq<char>,
    pub line: usize,
    pub column: usize,
    pub text: Option<Seq<char>>,
}

impl View for SyntaxErrorInfo {
    type V = SyntaxErrorModel;

    open spec fn view(&self) -> SyntaxErrorModel {
        SyntaxErrorModel {
            message: self.message@,
            line: self.line,
            column: self.column,
            text: match self.text {
                Some(t) => Some(t@),
                None => None,
            },
        }
    }
}

/// A function or method found by the analyzer.
#[derive(Debug, Clone, PartialEq, Eq)]
pub struct FunctionInfo {
    pub name: String,
    pub line: usize,
    pub column: usize,
    pub args: Vec<String>,
    pub decorators: Vec<String>,
    pub is_async: bool,
    pub has_docstring: bool,
    pub returns_annotation: bool,
    pub returns_body: bool,
}

#[verifier::ext_equal]
pub struct FunctionModel {
    pub name: Seq<char>,
    pub line: usize,
    pub column: usize,
    pub args: Seq<Seq<char>>,
    pub decorators: Seq<Seq<char>>,
    pub is_async: bool,
    pub has_docstring: bool,
    pub returns_annotation: bool,
    pub returns_body: bool,
}

impl View for FunctionInfo {
    type V = FunctionModel;

    open spec fn view(&self) -> FunctionModel {
        FunctionModel {
            name: self.name@,
            line: self.line,
            column: self.column,
            args: strs(self.args@),
            decorators: strs(self.decorators@),
            is_async: self.is_async,
            has_docstring: self.has_docstring,
            returns_annotation: self.returns_annotation,
            returns_body: self.returns_body,
        }
    }
}

/// Where a call site executes, ordered by how early it runs in a plugin's
/// lifecycle: the module body and the entry class `__init__` both run when
/// Open WebUI loads the plugin; other method bodies only when called.
#[derive(Debug, Clone, Copy, PartialEq, Eq, Structural)]
pub enum CallScope {
    ModuleLevel,
    InitBody,
    MethodBody,
}

impl CallScope {
    /// Module-level and entry-class `__init__` code run at import time.
    pub fn is_import_time(self) -> (r: bool)
        ensures
            r == (self is ModuleLevel || self is InitBody),
    {
        match self {
            CallScope::ModuleLevel => true,
            CallScope::InitBody => true,
            CallScope::MethodBody => false,
        }
    }
}

/// A call expression with the scope it sits in.
#[derive(Debug, Clone, PartialEq, Eq)]
pub struct CallSite {
    pub callee: String,
    pub line: usize,
    pub column: usize,
    pub scope: CallScope,
}

/// A field of a `Valves`/`UserValves` class.
#[derive(Debug, Clone, PartialEq, Eq)]
pub struct ValveFieldInfo {
    pub name: String,
    pub line: usize,
    pub has_password_type: bool,
}

#[verifier::ext_equal]
pub struct ValveFieldModel {
    pub name: Seq<char>,
    pub line: usize,
    pub has_password_type: bool,
}

impl View for ValveFieldInfo {
    type V = ValveFieldModel;

    open spec fn view(&self) -> ValveFieldModel {
        ValveFieldModel { name: self.name@, line: self.line, has_password_type: self.has_password_type }
    }
}

/// A class nested in a top-level class.
#[derive(Debug, Clone, PartialEq, Eq)]
pub struct NestedClassInfo {
    pub name: String,
    pub bases: Vec<String>,
    pub line: usize,
    pub fields: Vec<ValveFieldInfo>,
}

#[verifier::ext_equal]
pub struct NestedClassModel {
    pub name: Seq<char>,
    pub bases: Seq<Seq<char>>,
    pub line: usize,
    pub fields: Seq<ValveFieldModel>,
}

impl View for NestedClassInfo {
    type V = NestedClassModel;

    open spec fn view(&self) -> NestedClassModel {
        NestedClassModel {
            name: self.name@,
            bases: strs(self.bases@),
            line: self.line,
            fields: self.fields@.map_values(|f: ValveFieldInfo| f@),
        }
    }
}

/// A top-level class.
#[derive(Debug, Clone, PartialEq, Eq)]
pub struct ClassInfo {
    pub name: String,
    pub line: usize,
    pub column: usize,
    pub bases: Vec<String>,
    pub methods: Vec<FunctionInfo>,
    pub inner_classes: Vec<NestedClassInfo>,
    /// Names assigned as `self.<name>` in `__init__`, each once, in order of
    /// first assignment.
    pub init_assignments: Vec<String>,
    pub has_docstring: bool,
}

#[verifier::ext_equal]
pub struct ClassModel {
    pub name: Seq<char>,
    pub line: usize,
    pub column: usize,
    pub bases: Seq<Seq<char>>,
    pub methods: Seq<FunctionModel>,
    pub inner_classes: Seq<NestedClassModel>,
    pub init_assignments: Seq<Seq<char>>,
    pub has_docstring: bool,
}

impl View for ClassInfo {
    type V = ClassModel;

    open spec fn view(&self) -> ClassModel {
        ClassModel {
            name: self.name@,
            line: self.line,
            column: self.column,
            bases: strs(self.bases@),
            methods: self.methods@.map_values(|f: FunctionInfo| f@),
            inner_classes: self.inner_classes@.map_values(|c: NestedClassInfo| c@),
            init_assignments: strs(self.init_assignments@),
            has_docstring: self.has_docstring,
        }
    }
}

/// Index of the first method named `name` at or after `i`.
pub open spec fn method_index_from(ms: Seq<FunctionModel>, name: Seq<char>, i: int) -> Option<int>
    decreases ms.len() - i,
{
    if i < 0 || i >= ms.len() {
        None
    } else if ms[i].name == name {
        Some(i)
    } else {
        method_index_from(ms, name, i + 1)
    }
}

/// The first method named `name`.
pub open spec fn method_of(c: ClassModel, name: Seq<char>) -> Option<FunctionModel> {
    match method_index_from(c.methods, name, 0) {
        Some(i) => Some(c.methods[i]),
        None => None,
    }
}

/// Index of the first inner class named `name` at or after `i`.
pub open spec fn inner_index_from(cs: Seq<NestedClassModel>, name: Seq<char>, i: int) -> Option<int>
    decreases cs.len() - i,
{
    if i < 0 || i >= cs.len() {
        None
    } else if cs[i].name == name {
        Some(i)
    } else {
        inner_index_from(cs, name, i + 1)
    }
}

/// The first inner class named `name`.
pub open spec fn inner_class_of(c: ClassModel, name: Seq<char>) -> Option<NestedClassModel> {
    match inner_index_from(c.inner_classes, name, 0) {
        Some(i) => Some(c.inner_classes[i]),
        None => None,
    }
}

impl ClassInfo {
    /// The first method named `name`.
    pub fn method(&self, name: &str) -> (r: Option<&FunctionInfo>)
        ensures
            r matches Some(m) ==> method_of(self@, name@) == Some(m@),
            r is None ==> method_of(self@, name@) is None,
    {
        let wanted = chars_of(name);
        let ghost ms = self@.methods;
        let mut i: usize = 0;
        while i < self.methods.len()
            invariant
                ms == self@.methods,
                wanted@ == name@,
                i <= self.methods@.len(),
                method_index_from(ms, name@, 0) == method_index_from(ms, name@, i as int),
            decreases self.methods.len() - i,
        {
            let m = &self.methods[i];
            let n = chars_of(m.name.as_str());
            assert(ms[i as int] == self.methods@[i as int]@);
            if crate::text::chars_eq(n.as_slice(), wanted.as_slice()) {
                return Some(m);
            }
            i += 1;
        }
        None
    }

    /// The first inner class named `name`.
    pub fn inner_class(&self, name: &str) -> (r: Option<&NestedClassInfo>)
        ensures
            r matches Some(k) ==> inner_class_of(self@, name@) == Some(k@),
            r is None ==> inner_class_of(self@, name@) is None,
    {
        let wanted = chars_of(name);
        let ghost cs = self@.inner_classes;
        let mut i: usize = 0;
        while i < self.inner_classes.len()
            invariant
                cs == self@.inner_classes,
                wanted@ == name@,
                i <= self.inner_classes@.len(),
                inner_index_from(cs, name@, 0) == inner_index_from(cs, name@, i as int),
            decreases self.inner_classes.len() - i,
        {
            let k = &self.inner_classes[i];
            let n = chars_of(k.name.as_str());
            assert(cs[i as int] == self.inner_classes@[i as int]@);
            if crate::text::chars_eq(n.as_slice(), wanted.as_slice()) {
                return Some(k);
            }
            i += 1;
        }
        None
    }
}

/// Whether `v` holds a string equal to `name`, stated over the views.
pub fn has_name(v: &Vec<String>, name: &str) -> (r: bool)
    ensures
        r == strs(v@).contains(name@),
{
    let n = chars_of(name);
    let r = contains_string(v, n.as_slice());
    proof {
        if r {
            let i = choose|i: int| 0 <= i < v@.len() && #[trigger] v@[i]@ == name@;
            assert(strs(v@)[i] == name@);
        } else {
            assert forall|i: int| 0 <= i < strs(v@).len() implies strs(v@)[i] != name@ by {
                assert(strs(v@)[i] == v@[i]@);
            }
        }
    }
    r
}

/// What the analyzer learned about one module.
#[derive(Debug, Clone, PartialEq, Eq)]
pub struct ModuleInfo {
    pub path: String,
    pub syntax_ok: bool,
    pub syntax_error: Option<SyntaxErrorInfo>,
    pub module_docstring: Option<String>,
    pub module_docstring_line: Option<usize>,
    pub imports: Vec<String>,
    pub functions: Vec<FunctionInfo>,
    pub classes: Vec<ClassInfo>,
}

#[verifier::ext_equal]
pub struct ModuleModel {
    pub path: Seq<char>,
    pub syntax_ok: bool,
    pub syntax_error: Option<SyntaxErrorModel>,
    pub module_docstring: Option<Seq<char>>,
    pub module_docstring_line: Option<usize>,
    pub imports: Seq<Seq<char>>,
    pub functions: Seq<FunctionModel>,
    pub classes: Seq<ClassModel>,
}

impl View for ModuleInfo {
    type V = ModuleModel;

    open spec fn view(&self) -> ModuleModel {
        ModuleModel {
            path: self.path@,
            syntax_ok: self.syntax_ok,
            syntax_error: match self.syntax_error {
                Some(e) => Some(e@),
                None => None,
            },
            module_docstring: match self.module_docstring {
                Some(d) => Some(d@),
                None => None,
            },
            module_docstring_line: self.module_docstring_line,
            imports: strs(self.imports@),
            functions: self.functions@.map_values(|f: FunctionInfo| f@),
            classes: self.classes@.map_values(|c: ClassInfo| c@),
        }
    }
}

/// A finding.
#[derive(Debug, Clone, PartialEq, Eq)]
pub struct Issue {
    pub rule_id: String,
    pub severity: Severity,
    pub message: String,
    pub path: String,
    pub line: usize,
    pub column: usize,
}

#[verifier::ext_equal]
pub struct IssueModel {
    pub rule_id: Seq<char>,
    pub severity: Severity,
    pub message: Seq<char>,
    pub path: Seq<char>,
    pub line: usize,
    pub column: usize,
}

impl View for Issue {
    type V = IssueModel;

    open spec fn view(&self) -> IssueModel {
        IssueModel {
            rule_id: self.rule_id@,
            severity: self.severity,
            message: self.message@,
            path: self.path@,
            line: self.line,
            column: self.column,
        }
    }
}

impl Issue {
    /// A copy of the finding.
    pub fn duplicate(&self) -> (r: Issue)
        ensures
            r@ == self@,
    {
        Issue {
            rule_id: copy_string(&self.rule_id),
            severity: self.severity,
            message: copy_string(&self.message),
            path: copy_string(&self.path),
            line: self.line,
            column: self.column,
        }
    }
}

/// The views of a sequence of findings.
pub open spec fn issue_models(v: Seq<Issue>) -> Seq<IssueModel> {
    v.map_values(|i: Issue| i@)
}

/// Counts of one lint run.
#[derive(Debug, Clone, Copy, PartialEq, Eq, Structural)]
pub struct LintSummary {
    pub files_scanned: usize,
    pub errors: usize,
    pub warnings: usize,
}

} // verus!

//! The rules of the linter: what each extension type must define, which
//! header fields a module should carry, how configuration overrides change
//! the findings, and the order in which findings are reported.

use vstd::prelude::*;
use crate::models::Issue;
use crate::models::IssueModel;
use crate::models::ClassInfo;
use crate::models::ClassModel;
use crate::models::FunctionModel;
use crate::models::NestedClassInfo;
use crate::models::NestedClassModel;
use crate::models::ValveFieldModel;
use crate::models::issue_models;
use crate::models::inner_class_of;
use crate::models::method_of;
use crate::models::has_name;
use crate::models::ModuleInfo;
use crate::models::ModuleModel;
use crate::models::ascii_lower;
use crate::models::Severity;
use crate::models::SeverityOverride;
use crate::models::LintSummary;
use crate::config::Config;
use crate::config::ConfigModel;
use crate::config::lookup;
use crate::config::keys_unique;
use crate::config::lemma_override_last_wins;
use crate::config::assoc_insert;
use crate::analysis::SourceFile;
use crate::analysis::SourceFileModel;
use crate::analysis::analyze_file;
use crate::analysis::file_fits;
use crate::analysis::file_models;
use crate::analysis::module_of;
use crate::glob::glob;
use crate::glob::glob_match;
use crate::config::lower_chars;
use crate::rules::OWUI001;
use crate::rules::OWUI010;
use crate::rules::OWUI011;
use crate::rules::OWUI030;
use crate::rules::OWUI031;
use crate::rules::OWUI032;
use crate::rules::OWUI020;
use crate::rules::OWUI021;
use crate::rules::OWUI022;
use crate::rules::OWUI023;
use crate::rules::OWT100;
use crate::rules::OWT101;
use crate::rules::OWT102;
use crate::rules::OWP200;
use crate::rules::OWP201;
use crate::rules::OWP202;
use crate::rules::OWF300;
use crate::rules::OWF301;
use crate::rules::OWF303;
use crate::rules::OWF304;
use crate::rules::OWA400;
use crate::rules::OWA401;
use crate::rules::OWA402;
use crate::rules::OWPL500;
use crate::rules::OWPL501;
use crate::rules::default_severity_of;
use crate::rules::is_known;
use crate::rules::issue;
use crate::rules::lemma_all_known;
use crate::text::chars_of;
use crate::text::chars_eq;
use crate::text::string_of;
use crate::text::slice_copy;
use crate::text::push_str;
use crate::text::push_chars;
use crate::text::eq_lit;
use crate::text::is_alnum;
use crate::text::is_ascii_alnum;
use crate::text::find_from;
use crate::text::find_from_chars;
use crate::text::contains;
use crate::text::contains_chars;
use crate::text::rfind;
use crate::text::rfind_chars;
use crate::text::occurs_at;
use crate::text::lemma_find_from_bounds;
use crate::text::lemma_rfind_from_bounds;
use crate::text::trim;
use crate::text::trim_chars;
use crate::text::starts_with;
use crate::text::starts_with_chars;
use crate::text::lines;
use crate::text::str_lines;
use crate::text::split;
use crate::text::split_chars;
use crate::text::views;
use crate::text::join;
use crate::text::join_chars;

verus! {

// ---------------------------------------------------------------------------
// Findings
// ---------------------------------------------------------------------------

/// The finding of rule `rule` at the given place, with the rule's default
/// severity.
pub open spec fn finding(
    rule: Seq<char>,
    path: Seq<char>,
    line: usize,
    column: usize,
    message: Seq<char>,
) -> IssueModel {
    IssueModel { rule_id: rule, severity: default_severity_of(rule), message, path, line, column }
}

/// `x` when `cond` holds, nothing otherwise.
pub open spec fn one_if(cond: bool, x: IssueModel) -> Seq<IssueModel> {
    if cond {
        seq![x]
    } else {
        Seq::empty()
    }
}

/// Appends one finding.
fn push_issue(v: &mut Vec<Issue>, x: Issue)
    ensures
        issue_models(final(v)@) == issue_models(old(v)@).push(x@),
{
    v.push(x);
    assert(issue_models(v@) =~= issue_models(old(v)@).push(x@));
}

/// Appends the findings of `w`.
fn append_issues(v: &mut Vec<Issue>, w: Vec<Issue>)
    ensures
        issue_models(final(v)@) == issue_models(old(v)@) + issue_models(w@),
{
    let mut w = w;
    let ghost wv = w@;
    v.append(&mut w);
    assert(issue_models(v@) =~= issue_models(old(v)@) + issue_models(wv));
}

/// Appends the finding of the known rule `rule`.
fn emit(v: &mut Vec<Issue>, rule: &str, path: &str, line: usize, column: usize, message: &str)
    requires
        is_known(rule@),
    ensures
        issue_models(final(v)@) == issue_models(old(v)@).push(
            finding(rule@, path@, line, column, message@),
        ),
{
    let x = issue(rule, path, line, column, message);
    push_issue(v, x);
}

/// Appends the finding of the known rule `rule` with a message built from
/// characters.
fn emit_chars(v: &mut Vec<Issue>, rule: &str, path: &str, line: usize, column: usize, message: &[char])
    requires
        is_known(rule@),
    ensures
        issue_models(final(v)@) == issue_models(old(v)@).push(
            finding(rule@, path@, line, column, message@),
        ),
{
    let m = string_of(message);
    emit(v, rule, path, line, column, m.as_str());
}

// ---------------------------------------------------------------------------
// Extension types
// ---------------------------------------------------------------------------

/// The kinds of Open WebUI extension classes.
#[derive(Debug, Clone, Copy, PartialEq, Eq, Structural)]
pub enum ExtensionKind {
    Tools,
    Pipe,
    Filter,
    Action,
    Pipeline,
}

/// The extension kind a top-level class name stands for.
pub open spec fn extension_kind(name: Seq<char>) -> Option<ExtensionKind> {
    if name == "Tools"@ {
        Some(ExtensionKind::Tools)
    } else if name == "Pipe"@ {
        Some(ExtensionKind::Pipe)
    } else if name == "Filter"@ {
        Some(ExtensionKind::Filter)
    } else if name == "Action"@ {
        Some(ExtensionKind::Action)
    } else if name == "Pipeline"@ {
        Some(ExtensionKind::Pipeline)
    } else {
        None
    }
}

/// The extension kind a top-level class name stands for.
pub fn extension_type(class_name: &str) -> (r: Option<ExtensionKind>)
    ensures
        r == extension_kind(class_name@),
{
    let n = chars_of(class_name);
    let s = n.as_slice();
    if eq_lit(s, "Tools") {
        Some(ExtensionKind::Tools)
    } else if eq_lit(s, "Pipe") {
        Some(ExtensionKind::Pipe)
    } else if eq_lit(s, "Filter") {
        Some(ExtensionKind::Filter)
    } else if eq_lit(s, "Action") {
        Some(ExtensionKind::Action)
    } else if eq_lit(s, "Pipeline") {
        Some(ExtensionKind::Pipeline)
    } else {
        None
    }
}

// ---------------------------------------------------------------------------
// Configuration classes
// ---------------------------------------------------------------------------

/// The part of a dotted base-class name after its last dot.
pub open spec fn last_segment(base: Seq<char>) -> Seq<char> {
    match rfind(base, seq!['.']) {
        Some(i) => base.subrange(i + 1, base.len() as int),
        None => base,
    }
}

/// Whether one of the bases names `BaseModel`, possibly module-qualified.
pub open spec fn has_base_model(bases: Seq<Seq<char>>) -> bool {
    exists|i: int| 0 <= i < bases.len() && #[trigger] last_segment(bases[i]) == "BaseModel"@
}

fn last_segment_chars(base: &[char]) -> (r: Vec<char>)
    ensures
        r@ == last_segment(base@),
{
    let n = base.len();
    let dot: Vec<char> = vec!['.'];
    assert(dot@ =~= seq!['.']);
    match rfind_chars(base, dot.as_slice()) {
        Some(i) => {
            proof {
                lemma_rfind_from_bounds(base@, dot@, base@.len() - dot@.len());
                assert(occurs_at(base@, dot@, i as int));
            }
            slice_copy(base, i + 1, n)
        },
        None => slice_copy(base, 0, n),
    }
}

fn bases_have_base_model(bases: &Vec<String>) -> (r: bool)
    ensures
        r == has_base_model(crate::models::strs(bases@)),
{
    let ghost bs = crate::models::strs(bases@);
    let mut i: usize = 0;
    while i < bases.len()
        invariant
            bs == crate::models::strs(bases@),
            i <= bases@.len(),
            forall|k: int| 0 <= k < i ==> #[trigger] last_segment(bs[k]) != "BaseModel"@,
        decreases bases.len() - i,
    {
        let b = chars_of(bases[i].as_str());
        let seg = last_segment_chars(b.as_slice());
        assert(bs[i as int] == bases@[i as int]@);
        if eq_lit(seg.as_slice(), "BaseModel") {
            return true;
        }
        i += 1;
    }
    false
}

/// Whether `value[start..end]` is delimited on both sides by a non
/// alphanumeric character or by the ends of `value`.
pub open spec fn boundary_ok(value: Seq<char>, start: int, end: int) -> bool {
    &&& (start == 0 || !is_ascii_alnum(value[start - 1]))
    &&& (end >= value.len() || !is_ascii_alnum(value[end]))
}

/// Whether one of the non-overlapping occurrences of `token` in `value`, at
/// or after `i`, found left to right, is delimited on both sides.
pub open spec fn boundary_match_from(value: Seq<char>, token: Seq<char>, i: int) -> bool
    decreases value.len() + 1 - i,
{
    if i < 0 {
        false
    } else {
        match find_from(value, token, i) {
            None => false,
            Some(k) => {
                proof {
                    lemma_find_from_bounds(value, token, i);
                }
                boundary_ok(value, k, k + token.len()) || boundary_match_from(
                    value,
                    token,
                    if token.len() == 0 {
                        k + 1
                    } else {
                        k + token.len()
                    },
                )
            },
        }
    }
}

fn contains_with_token_boundaries(value: &[char], token: &str) -> (r: bool)
    ensures
        r == boundary_match_from(value@, token@, 0),
{
    let tv = chars_of(token);
    let t = tv.as_slice();
    let n = value.len();
    let mut i: usize = 0;
    loop
        invariant
            t@ == token@,
            n == value@.len(),
            i <= n + 1,
            boundary_match_from(value@, token@, 0) == boundary_match_from(value@, token@, i as int),
        decreases n + 1 - i,
    {
        match find_from_chars(value, t, i) {
            None => {
                return false;
            },
            Some(k) => {
                proof {
                    lemma_find_from_bounds(value@, t@, i as int);
                }
                let end = k + t.len();
                let prev_ok = k == 0 || !is_alnum(value[k - 1]);
                let next_ok = end >= n || !is_alnum(value[end]);
                if prev_ok && next_ok {
                    return true;
                }
                if t.len() == 0 {
                    if k >= n {
                        assert(find_from(value@, t@, k + 1) is None);
                        assert(!boundary_match_from(value@, t@, k + 1));
                        return false;
                    }
                    i = k + 1;
                } else {
                    i = end;
                }
            },
        }
    }
}

/// Names that mention tokens but are counters or rates, not secrets.
pub open spec fn sensitive_excluded(name: Seq<char>) -> bool {
    ||| contains(name, "token_count"@)
    ||| contains(name, "tokens_per_"@)
    ||| contains(name, "token_per_"@)
    ||| contains(name, "token_rate"@)
    ||| contains(name, "token_usage"@)
}

/// Whether one of the secret-like words stands in `name` as a word of its own.
pub open spec fn sensitive_hit(name: Seq<char>) -> bool {
    ||| boundary_match_from(name, "api_key"@, 0)
    ||| boundary_match_from(name, "apikey"@, 0)
    ||| boundary_match_from(name, "secret"@, 0)
    ||| boundary_match_from(name, "token"@, 0)
    ||| boundary_match_from(name, "password"@, 0)
    ||| boundary_match_from(name, "passwd"@, 0)
    ||| boundary_match_from(name, "auth_key"@, 0)
    ||| boundary_match_from(name, "access_key"@, 0)
    ||| boundary_match_from(name, "private_key"@, 0)
    ||| boundary_match_from(name, "credential"@, 0)
}

/// Whether a configuration field name looks like it holds a secret.
pub open spec fn is_sensitive_name(name: Seq<char>) -> bool {
    !sensitive_excluded(name) && sensitive_hit(name)
}

fn contains_lit(s: &[char], lit: &str) -> (r: bool)
    ensures
        r == contains(s@, lit@),
{
    let l = chars_of(lit);
    contains_chars(s, l.as_slice())
}

/// Whether a configuration field name looks like it holds a secret.
pub fn is_sensitive_field_name(name: &str) -> (r: bool)
    ensures
        r == is_sensitive_name(name@),
{
    let nv = chars_of(name);
    let n = nv.as_slice();
    if contains_lit(n, "token_count") || contains_lit(n, "tokens_per_") || contains_lit(
        n,
        "token_per_",
    ) || contains_lit(n, "token_rate") || contains_lit(n, "token_usage") {
        return false;
    }
    contains_with_token_boundaries(n, "api_key") || contains_with_token_boundaries(n, "apikey")
        || contains_with_token_boundaries(n, "secret") || contains_with_token_boundaries(n, "token")
        || contains_with_token_boundaries(n, "password") || contains_with_token_boundaries(
        n,
        "passwd",
    ) || contains_with_token_boundaries(n, "auth_key") || contains_with_token_boundaries(
        n,
        "access_key",
    ) || contains_with_token_boundaries(n, "private_key") || contains_with_token_boundaries(
        n,
        "credential",
    )
}

/// The message of a sensitive field that is not masked.
pub open spec fn masked_field_message(cname: Seq<char>, fname: Seq<char>) -> Seq<char> {
    cname + " field '"@ + fname
        + "' looks sensitive but is not masked. Add json_schema_extra={\"input\": {\"type\": \"password\"}} to the Field()."@
}

/// Findings for the first `n` fields of a configuration class.
pub open spec fn field_issues(
    path: Seq<char>,
    cname: Seq<char>,
    fs: Seq<ValveFieldModel>,
    n: int,
) -> Seq<IssueModel>
    decreases n,
{
    if n <= 0 {
        Seq::empty()
    } else {
        field_issues(path, cname, fs, n - 1) + one_if(
            is_sensitive_name(fs[n - 1].name) && !fs[n - 1].has_password_type,
            finding(OWUI023@, path, fs[n - 1].line, 1, masked_field_message(cname, fs[n - 1].name)),
        )
    }
}

/// Findings for one configuration class (`Valves` or `UserValves`).
pub open spec fn config_issues(
    path: Seq<char>,
    c: ClassModel,
    cname: Seq<char>,
    cfg: Option<NestedClassModel>,
    is_valves: bool,
) -> Seq<IssueModel> {
    match cfg {
        None => Seq::empty(),
        Some(k) => one_if(
            !has_base_model(k.bases),
            finding(OWUI021@, path, c.line, c.column, cname + " should inherit from pydantic.BaseModel."@),
        ) + one_if(
            is_valves && !c.init_assignments.contains("valves"@),
            finding(
                OWUI022@,
                path,
                c.line,
                c.column,
                "Initialize valves in __init__ with self.valves = self.Valves()."@,
            ),
        ) + field_issues(path, cname, k.fields, k.fields.len() as int),
    }
}

/// Findings every extension class is checked for: its configuration classes.
pub open spec fn lint_common_spec(path: Seq<char>, c: ClassModel) -> Seq<IssueModel> {
    let valves = inner_class_of(c, "Valves"@);
    let user_valves = inner_class_of(c, "UserValves"@);
    if valves is None && user_valves is None {
        seq![
            finding(
                OWUI020@,
                path,
                c.line,
                c.column,
                c.name + " should define an inner Valves or UserValves class for configuration."@,
            ),
        ]
    } else {
        config_issues(path, c, "Valves"@, valves, true) + config_issues(
            path,
            c,
            "UserValves"@,
            user_valves,
            false,
        )
    }
}

fn config_class_issues(
    path: &str,
    c: &ClassInfo,
    cname: &str,
    k: &NestedClassInfo,
    is_valves: bool,
) -> (r: Vec<Issue>)
    ensures
        issue_models(r@) == config_issues(path@, c@, cname@, Some(k@), is_valves),
{
    proof {
        lemma_all_known();
    }
    let mut out: Vec<Issue> = Vec::new();
    if !bases_have_base_model(&k.bases) {
        let mut m: Vec<char> = Vec::new();
        push_str(&mut m, cname);
        push_str(&mut m, " should inherit from pydantic.BaseModel.");
        emit_chars(&mut out, OWUI021, path, c.line, c.column, m.as_slice());
    }
    if is_valves && !has_name(&c.init_assignments, "valves") {
        emit(
            &mut out,
            OWUI022,
            path,
            c.line,
            c.column,
            "Initialize valves in __init__ with self.valves = self.Valves().",
        );
    }
    assert(issue_models(out@) =~= one_if(
        !has_base_model(k@.bases),
        finding(OWUI021@, path@, c.line, c.column, cname@ + " should inherit from pydantic.BaseModel."@),
    ) + one_if(
        is_valves && !c@.init_assignments.contains("valves"@),
        finding(
            OWUI022@,
            path@,
            c.line,
            c.column,
            "Initialize valves in __init__ with self.valves = self.Valves()."@,
        ),
    ));
    let ghost head = issue_models(out@);
    let ghost fs = k@.fields;
    let mut i: usize = 0;
    while i < k.fields.len()
        invariant
            fs == k@.fields,
            is_known(OWUI023@),
            i <= k.fields@.len(),
            issue_models(out@) == head + field_issues(path@, cname@, fs, i as int),
        decreases k.fields.len() - i,
    {
        let f = &k.fields[i];
        assert(fs[i as int] == f@);
        if is_sensitive_field_name(f.name.as_str()) && !f.has_password_type {
            let mut m: Vec<char> = Vec::new();
            push_str(&mut m, cname);
            push_str(&mut m, " field '");
            push_str(&mut m, f.name.as_str());
            push_str(
                &mut m,
                "' looks sensitive but is not masked. Add json_schema_extra={\"input\": {\"type\": \"password\"}} to the Field().",
            );
            emit_chars(&mut out, OWUI023, path, f.line, 1, m.as_slice());
        }
        assert(issue_models(out@) =~= head + field_issues(path@, cname@, fs, i + 1));
        i += 1;
    }
    out
}

/// Findings every extension class is checked for: its configuration classes.
pub fn lint_common(path: &str, c: &ClassInfo) -> (r: Vec<Issue>)
    ensures
        issue_models(r@) == lint_common_spec(path@, c@),
{
    proof {
        lemma_all_known();
    }
    let valves = c.inner_class("Valves");
    let user_valves = c.inner_class("UserValves");
    let mut out: Vec<Issue> = Vec::new();
    if valves.is_none() && user_valves.is_none() {
        let mut m: Vec<char> = Vec::new();
        push_str(&mut m, c.name.as_str());
        push_str(&mut m, " should define an inner Valves or UserValves class for configuration.");
        emit_chars(&mut out, OWUI020, path, c.line, c.column, m.as_slice());
        return out;
    }
    match valves {
        Some(k) => {
            let w = config_class_issues(path, c, "Valves", k, true);
            append_issues(&mut out, w);
        },
        None => {},
    }
    match user_valves {
        Some(k) => {
            let w = config_class_issues(path, c, "UserValves", k, false);
            append_issues(&mut out, w);
        },
        None => {},
    }
    assert(issue_models(out@) =~= lint_common_spec(path@, c@));
    out
}

// ---------------------------------------------------------------------------
// Tools
// ---------------------------------------------------------------------------

/// Method names of a Tools class that are not tools.
pub open spec fn is_ignored_tool_name(n: Seq<char>) -> bool {
    ||| n == "__init__"@
    ||| n == "pipes"@
    ||| n == "pipe"@
    ||| n == "inlet"@
    ||| n == "outlet"@
    ||| n == "action"@
    ||| n == "on_startup"@
    ||| n == "on_shutdown"@
    ||| n == "on_valves_updated"@
}

/// Whether a method of a Tools class is a tool: public and not a hook.
pub open spec fn is_tool_method(m: FunctionModel) -> bool {
    !(m.name.len() > 0 && m.name[0] == '_') && !is_ignored_tool_name(m.name)
}

/// Whether a Tools class has at least one tool method.
pub open spec fn has_tool_method(ms: Seq<FunctionModel>) -> bool {
    exists|i: int| 0 <= i < ms.len() && #[trigger] is_tool_method(ms[i])
}

/// Findings for the tool methods among the first `n` methods.
pub open spec fn tool_method_issues(path: Seq<char>, ms: Seq<FunctionModel>, n: int) -> Seq<
    IssueModel,
>
    decreases n,
{
    if n <= 0 {
        Seq::empty()
    } else {
        let m = ms[n - 1];
        tool_method_issues(path, ms, n - 1) + if is_tool_method(m) {
            one_if(
                !m.has_docstring,
                finding(
                    OWT101@,
                    path,
                    m.line,
                    m.column,
                    "Tool method '"@ + m.name + "' should include a descriptive docstring."@,
                ),
            ) + one_if(
                !m.is_async,
                finding(OWT102@, path, m.line, m.column, "Tool method '"@ + m.name + "' should be async."@),
            )
        } else {
            Seq::empty()
        }
    }
}

/// Findings for a Tools class.
pub open spec fn lint_tools_spec(path: Seq<char>, c: ClassModel) -> Seq<IssueModel> {
    if !has_tool_method(c.methods) {
        seq![finding(OWT100@, path, c.line, c.column, "Tools class has no public tool methods."@)]
    } else {
        tool_method_issues(path, c.methods, c.methods.len() as int)
    }
}

fn is_ignored_tool(n: &[char]) -> (r: bool)
    ensures
        r == is_ignored_tool_name(n@),
{
    eq_lit(n, "__init__") || eq_lit(n, "pipes") || eq_lit(n, "pipe") || eq_lit(n, "inlet")
        || eq_lit(n, "outlet") || eq_lit(n, "action") || eq_lit(n, "on_startup") || eq_lit(
        n,
        "on_shutdown",
    ) || eq_lit(n, "on_valves_updated")
}

/// Findings for a Tools class.
pub fn lint_tools(path: &str, c: &ClassInfo) -> (r: Vec<Issue>)
    ensures
        issue_models(r@) == lint_tools_spec(path@, c@),
{
    proof {
        lemma_all_known();
    }
    let ghost ms = c@.methods;
    let mut out: Vec<Issue> = Vec::new();
    let mut any_tool = false;
    let mut i: usize = 0;
    while i < c.methods.len()
        invariant
            ms == c@.methods,
            is_known(OWT101@),
            is_known(OWT102@),
            i <= c.methods@.len(),
            issue_models(out@) == tool_method_issues(path@, ms, i as int),
            any_tool == exists|k: int| 0 <= k < i && #[trigger] is_tool_method(ms[k]),
        decreases c.methods.len() - i,
    {
        let m = &c.methods[i];
        assert(ms[i as int] == m@);
        let nv = chars_of(m.name.as_str());
        let n = nv.as_slice();
        let is_tool = !(n.len() > 0 && n[0] == '_') && !is_ignored_tool(n);
        let ghost before = issue_models(out@);
        if is_tool {
            any_tool = true;
            if !m.has_docstring {
                let mut msg: Vec<char> = Vec::new();
                push_str(&mut msg, "Tool method '");
                push_str(&mut msg, m.name.as_str());
                push_str(&mut msg, "' should include a descriptive docstring.");
                emit_chars(&mut out, OWT101, path, m.line, m.column, msg.as_slice());
            }
            if !m.is_async {
                let mut msg: Vec<char> = Vec::new();
                push_str(&mut msg, "Tool method '");
                push_str(&mut msg, m.name.as_str());
                push_str(&mut msg, "' should be async.");
                emit_chars(&mut out, OWT102, path, m.line, m.column, msg.as_slice());
            }
        }
        assert(issue_models(out@) =~= tool_method_issues(path@, ms, i + 1));
        i += 1;
    }
    if !any_tool {
        let mut single: Vec<Issue> = Vec::new();
        emit(&mut single, OWT100, path, c.line, c.column, "Tools class has no public tool methods.");
        assert(issue_models(single@) =~= lint_tools_spec(path@, c@));
        return single;
    }
    out
}

// ---------------------------------------------------------------------------
// Pipe, Filter, Action, Pipeline
// ---------------------------------------------------------------------------

/// Whether a method takes a parameter named `name`.
pub open spec fn has_param(m: FunctionModel, name: Seq<char>) -> bool {
    m.args.contains(name)
}

/// Findings for a Pipe class.
pub open spec fn lint_pipe_spec(path: Seq<char>, c: ClassModel) -> Seq<IssueModel> {
    match method_of(c, "pipe"@) {
        None => seq![finding(OWP200@, path, c.line, c.column, "Pipe class must define a 'pipe' method."@)],
        Some(p) => one_if(
            method_of(c, "inlet"@) is Some || method_of(c, "outlet"@) is Some,
            finding(
                OWP201@,
                path,
                c.line,
                c.column,
                "Pipe classes must not define inlet/outlet methods; use Filter instead."@,
            ),
        ) + one_if(
            !p.is_async,
            finding(
                OWP202@,
                path,
                p.line,
                p.column,
                "Pipe.pipe should be async for compatibility with Open WebUI execution."@,
            ),
        ),
    }
}

/// Findings for a Pipe class.
pub fn lint_pipe(path: &str, c: &ClassInfo) -> (r: Vec<Issue>)
    ensures
        issue_models(r@) == lint_pipe_spec(path@, c@),
{
    proof {
        lemma_all_known();
    }
    let inlet = c.method("inlet");
    let outlet = c.method("outlet");
    let mut out: Vec<Issue> = Vec::new();
    match c.method("pipe") {
        None => {
            emit(&mut out, OWP200, path, c.line, c.column, "Pipe class must define a 'pipe' method.");
        },
        Some(p) => {
            if inlet.is_some() || outlet.is_some() {
                emit(
                    &mut out,
                    OWP201,
                    path,
                    c.line,
                    c.column,
                    "Pipe classes must not define inlet/outlet methods; use Filter instead.",
                );
            }
            if !p.is_async {
                emit(
                    &mut out,
                    OWP202,
                    path,
                    p.line,
                    p.column,
                    "Pipe.pipe should be async for compatibility with Open WebUI execution.",
                );
            }
        },
    }
    assert(issue_models(out@) =~= lint_pipe_spec(path@, c@));
    out
}

/// Findings for a Filter class.
pub open spec fn lint_filter_spec(path: Seq<char>, c: ClassModel) -> Seq<IssueModel> {
    let inlet = method_of(c, "inlet"@);
    let outlet = method_of(c, "outlet"@);
    let stream = method_of(c, "stream"@);
    if inlet is None && outlet is None && stream is None {
        seq![
            finding(
                OWF300@,
                path,
                c.line,
                c.column,
                "Filter must define at least one of inlet/outlet/stream."@,
            ),
        ]
    } else {
        (match inlet {
            Some(m) => one_if(
                !m.returns_body,
                finding(OWF301@, path, m.line, m.column, "Filter.inlet should return body."@),
            ) + one_if(
                !has_param(m, "body"@),
                finding(
                    OWF303@,
                    path,
                    m.line,
                    m.column,
                    "Filter.inlet should accept a `body` parameter."@,
                ),
            ),
            None => Seq::empty(),
        }) + (match outlet {
            Some(m) => one_if(
                !has_param(m, "body"@),
                finding(
                    OWF303@,
                    path,
                    m.line,
                    m.column,
                    "Filter.outlet should accept a `body` parameter."@,
                ),
            ),
            None => Seq::empty(),
        }) + (match stream {
            Some(m) => one_if(
                !has_param(m, "event"@),
                finding(
                    OWF304@,
                    path,
                    m.line,
                    m.column,
                    "Filter.stream should accept an `event` parameter."@,
                ),
            ),
            None => Seq::empty(),
        })
    }
}

/// Findings for a Filter class.
pub fn lint_filter(path: &str, c: &ClassInfo) -> (r: Vec<Issue>)
    ensures
        issue_models(r@) == lint_filter_spec(path@, c@),
{
    proof {
        lemma_all_known();
    }
    let inlet = c.method("inlet");
    let outlet = c.method("outlet");
    let stream = c.method("stream");
    let mut out: Vec<Issue> = Vec::new();
    if inlet.is_none() && outlet.is_none() && stream.is_none() {
        emit(
            &mut out,
            OWF300,
            path,
            c.line,
            c.column,
            "Filter must define at least one of inlet/outlet/stream.",
        );
        assert(issue_models(out@) =~= lint_filter_spec(path@, c@));
        return out;
    }
    match inlet {
        Some(m) => {
            if !m.returns_body {
                emit(&mut out, OWF301, path, m.line, m.column, "Filter.inlet should return body.");
            }
            if !has_name(&m.args, "body") {
                emit(
                    &mut out,
                    OWF303,
                    path,
                    m.line,
                    m.column,
                    "Filter.inlet should accept a `body` parameter.",
                );
            }
        },
        None => {},
    }
    let ghost after_inlet = issue_models(out@);
    match outlet {
        Some(m) => {
            if !has_name(&m.args, "body") {
                emit(
                    &mut out,
                    OWF303,
                    path,
                    m.line,
                    m.column,
                    "Filter.outlet should accept a `body` parameter.",
                );
            }
        },
        None => {},
    }
    let ghost after_outlet = issue_models(out@);
    match stream {
        Some(m) => {
            if !has_name(&m.args, "event") {
                emit(
                    &mut out,
                    OWF304,
                    path,
                    m.line,
                    m.column,
                    "Filter.stream should accept an `event` parameter.",
                );
            }
        },
        None => {},
    }
    assert(issue_models(out@) =~= lint_filter_spec(path@, c@));
    out
}

/// Findings for an Action class.
pub open spec fn lint_action_spec(path: Seq<char>, c: ClassModel) -> Seq<IssueModel> {
    match method_of(c, "action"@) {
        None => seq![
            finding(OWA400@, path, c.line, c.column, "Action class must define an 'action' method."@),
        ],
        Some(a) => one_if(
            !a.is_async,
            finding(OWA401@, path, a.line, a.column, "Action.action should be async."@),
        ) + one_if(
            !has_param(a, "body"@),
            finding(
                OWA402@,
                path,
                a.line,
                a.column,
                "Action.action should accept a `body` parameter."@,
            ),
        ),
    }
}

/// Findings for an Action class.
pub fn lint_action(path: &str, c: &ClassInfo) -> (r: Vec<Issue>)
    ensures
        issue_models(r@) == lint_action_spec(path@, c@),
{
    proof {
        lemma_all_known();
    }
    let mut out: Vec<Issue> = Vec::new();
    match c.method("action") {
        None => {
            emit(
                &mut out,
                OWA400,
                path,
                c.line,
                c.column,
                "Action class must define an 'action' method.",
            );
        },
        Some(a) => {
            if !a.is_async {
                emit(&mut out, OWA401, path, a.line, a.column, "Action.action should be async.");
            }
            if !has_name(&a.args, "body") {
                emit(
                    &mut out,
                    OWA402,
                    path,
                    a.line,
                    a.column,
                    "Action.action should accept a `body` parameter.",
                );
            }
        },
    }
    assert(issue_models(out@) =~= lint_action_spec(path@, c@));
    out
}

/// Findings for a Pipeline class.
pub open spec fn lint_pipeline_spec(path: Seq<char>, c: ClassModel) -> Seq<IssueModel> {
    let has_pipe = method_of(c, "pipe"@) is Some;
    let has_pipes = method_of(c, "pipes"@) is Some;
    let has_filter_hook = method_of(c, "inlet"@) is Some || method_of(c, "outlet"@) is Some
        || method_of(c, "stream"@) is Some;
    one_if(
        !has_pipe && !has_pipes && !has_filter_hook,
        finding(
            OWPL500@,
            path,
            c.line,
            c.column,
            "Pipeline class must define 'pipe', 'pipes' (manifold), or at least one filter hook (inlet/outlet/stream)."@,
        ),
    ) + one_if(
        !c.init_assignments.contains("name"@),
        finding(
            OWPL501@,
            path,
            c.line,
            c.column,
            "Pipeline __init__ should set self.name for clearer model labeling."@,
        ),
    )
}

/// Findings for a Pipeline class.
pub fn lint_pipeline(path: &str, c: &ClassInfo) -> (r: Vec<Issue>)
    ensures
        issue_models(r@) == lint_pipeline_spec(path@, c@),
{
    proof {
        lemma_all_known();
    }
    let has_pipe = c.method("pipe").is_some();
    let has_pipes = c.method("pipes").is_some();
    let has_filter_hook = c.method("inlet").is_some() || c.method("outlet").is_some() || c.method(
        "stream",
    ).is_some();
    let mut out: Vec<Issue> = Vec::new();
    if !has_pipe && !has_pipes && !has_filter_hook {
        emit(
            &mut out,
            OWPL500,
            path,
            c.line,
            c.column,
            "Pipeline class must define 'pipe', 'pipes' (manifold), or at least one filter hook (inlet/outlet/stream).",
        );
    }
    if !has_name(&c.init_assignments, "name") {
        emit(
            &mut out,
            OWPL501,
            path,
            c.line,
            c.column,
            "Pipeline __init__ should set self.name for clearer model labeling.",
        );
    }
    assert(issue_models(out@) =~= lint_pipeline_spec(path@, c@));
    out
}

/// All findings for one extension class: the common checks, then those of
/// its kind.
pub open spec fn lint_extension_class_spec(path: Seq<char>, c: ClassModel) -> Seq<IssueModel> {
    lint_common_spec(path, c) + match extension_kind(c.name) {
        Some(ExtensionKind::Tools) => lint_tools_spec(path, c),
        Some(ExtensionKind::Pipe) => lint_pipe_spec(path, c),
        Some(ExtensionKind::Filter) => lint_filter_spec(path, c),
        Some(ExtensionKind::Action) => lint_action_spec(path, c),
        Some(ExtensionKind::Pipeline) => lint_pipeline_spec(path, c),
        None => Seq::empty(),
    }
}

/// All findings for one extension class: the common checks, then those of
/// its kind.
pub fn lint_extension_class(path: &str, c: &ClassInfo) -> (r: Vec<Issue>)
    ensures
        issue_models(r@) == lint_extension_class_spec(path@, c@),
{
    let mut out = lint_common(path, c);
    match extension_type(c.name.as_str()) {
        Some(ExtensionKind::Tools) => append_issues(&mut out, lint_tools(path, c)),
        Some(ExtensionKind::Pipe) => append_issues(&mut out, lint_pipe(path, c)),
        Some(ExtensionKind::Filter) => append_issues(&mut out, lint_filter(path, c)),
        Some(ExtensionKind::Action) => append_issues(&mut out, lint_action(path, c)),
        Some(ExtensionKind::Pipeline) => append_issues(&mut out, lint_pipeline(path, c)),
        None => {
            assert(issue_models(out@) =~= issue_models(out@) + Seq::<IssueModel>::empty());
        },
    }
    out
}

// ---------------------------------------------------------------------------
// Module header
// ---------------------------------------------------------------------------

/// What the first `n` lines of a module docstring declare: whether a
/// `version:` and a `title:` line occur, and the value of the last
/// `requirements:` line.
pub open spec fn header_scan(ls: Seq<Seq<char>>, n: int) -> (bool, bool, Option<Seq<char>>)
    decreases n,
{
    if n <= 0 {
        (false, false, None)
    } else {
        let prev = header_scan(ls, n - 1);
        let t = trim(ls[n - 1]);
        (
            prev.0 || starts_with(t, "version:"@),
            prev.1 || starts_with(t, "title:"@),
            if starts_with(t, "requirements:"@) {
                Some(trim(t.subrange("requirements:"@.len() as int, t.len() as int)))
            } else {
                prev.2
            },
        )
    }
}

/// Whether a requirement carries a version specifier.
pub open spec fn has_version_spec(req: Seq<char>) -> bool {
    ||| contains(req, "=="@)
    ||| contains(req, ">="@)
    ||| contains(req, "<="@)
    ||| contains(req, "!="@)
    ||| contains(req, "~="@)
    ||| contains(req, ">"@)
    ||| contains(req, "<"@)
    ||| contains(req, "@"@)
}

/// The trimmed, non-empty requirements among the first `n` comma-separated
/// pieces that carry no version specifier.
pub open spec fn unpinned(pieces: Seq<Seq<char>>, n: int) -> Seq<Seq<char>>
    decreases n,
{
    if n <= 0 {
        Seq::empty()
    } else {
        let t = trim(pieces[n - 1]);
        unpinned(pieces, n - 1) + if t.len() > 0 && !has_version_spec(t) {
            seq![t]
        } else {
            Seq::empty()
        }
    }
}

/// The message for requirements without a version specifier.
pub open spec fn requirements_message(u: Seq<Seq<char>>) -> Seq<char> {
    "Requirements without a version specifier detected: "@ + join(u, ", "@)
        + ". Consider adding a specifier (e.g. `"@ + u[0] + ">=1.2.3` or `"@ + u[0]
        + "==1.2.3`)."@
}

/// Findings for the module docstring's header fields.
pub open spec fn lint_module_header_spec(path: Seq<char>, m: ModuleModel) -> Seq<IssueModel> {
    match m.module_docstring {
        None => Seq::empty(),
        Some(d) => {
            let line: usize = match m.module_docstring_line {
                Some(l) => l,
                None => 1,
            };
            let ls = lines(d);
            let h = header_scan(ls, ls.len() as int);
            one_if(
                !h.0,
                finding(
                    OWUI030@,
                    path,
                    line,
                    1,
                    "Module header is missing a `version:` field. Consider adding e.g. `version: 0.1.0`."@,
                ),
            ) + one_if(
                !h.1,
                finding(
                    OWUI032@,
                    path,
                    line,
                    1,
                    "Module header is missing a `title:` field. Open WebUI uses this as the display name in the UI."@,
                ),
            ) + match h.2 {
                None => Seq::empty(),
                Some(r) => {
                    let u = unpinned(split(r, ','), split(r, ',').len() as int);
                    one_if(u.len() > 0, finding(OWUI031@, path, line, 1, requirements_message(u)))
                },
            }
        },
    }
}

/// Whether a requirement carries a version specifier.
pub fn has_version_specifier(req: &[char]) -> (r: bool)
    ensures
        r == has_version_spec(req@),
{
    contains_lit(req, "==") || contains_lit(req, ">=") || contains_lit(req, "<=") || contains_lit(
        req,
        "!=",
    ) || contains_lit(req, "~=") || contains_lit(req, ">") || contains_lit(req, "<")
        || contains_lit(req, "@")
}

fn starts_with_lit(s: &[char], lit: &str) -> (r: bool)
    ensures
        r == starts_with(s@, lit@),
{
    let l = chars_of(lit);
    starts_with_chars(s, l.as_slice())
}

fn scan_header(ls: &Vec<Vec<char>>) -> (r: (bool, bool, Option<Vec<char>>))
    ensures
        r.0 == header_scan(views(ls@), ls@.len() as int).0,
        r.1 == header_scan(views(ls@), ls@.len() as int).1,
        r.2 matches Some(v) ==> header_scan(views(ls@), ls@.len() as int).2 == Some(v@),
        r.2 is None ==> header_scan(views(ls@), ls@.len() as int).2 is None,
{
    let ghost lv = views(ls@);
    let pre = chars_of("requirements:");
    let plen = pre.len();
    let mut has_version = false;
    let mut has_title = false;
    let mut req: Option<Vec<char>> = None;
    let mut i: usize = 0;
    while i < ls.len()
        invariant
            lv == views(ls@),
            pre@ == "requirements:"@,
            plen == pre@.len(),
            i <= ls@.len(),
            has_version == header_scan(lv, i as int).0,
            has_title == header_scan(lv, i as int).1,
            req matches Some(v) ==> header_scan(lv, i as int).2 == Some(v@),
            req is None ==> header_scan(lv, i as int).2 is None,
        decreases ls.len() - i,
    {
        let t = trim_chars(ls[i].as_slice());
        assert(lv[i as int] == ls@[i as int]@);
        if starts_with_lit(t.as_slice(), "version:") {
            has_version = true;
        }
        if starts_with_lit(t.as_slice(), "title:") {
            has_title = true;
        }
        if starts_with_chars(t.as_slice(), pre.as_slice()) {
            let n = t.len();
            let rest = slice_copy(t.as_slice(), plen, n);
            req = Some(trim_chars(rest.as_slice()));
        }
        i += 1;
    }
    (has_version, has_title, req)
}

fn unpinned_requirements(r: &[char]) -> (u: Vec<Vec<char>>)
    ensures
        views(u@) == unpinned(split(r@, ','), split(r@, ',').len() as int),
{
    let pieces = split_chars(r, ',');
    let ghost pv = views(pieces@);
    let mut u: Vec<Vec<char>> = Vec::new();
    let mut i: usize = 0;
    while i < pieces.len()
        invariant
            pv == views(pieces@),
            pv == split(r@, ','),
            i <= pieces@.len(),
            views(u@) == unpinned(pv, i as int),
        decreases pieces.len() - i,
    {
        let t = trim_chars(pieces[i].as_slice());
        assert(pv[i as int] == pieces@[i as int]@);
        let ghost before = u@;
        if t.len() > 0 && !has_version_specifier(t.as_slice()) {
            u.push(t);
            assert(views(u@) =~= views(before).push(trim(pv[i as int])));
        }
        assert(views(u@) =~= unpinned(pv, i + 1));
        i += 1;
    }
    u
}

/// Findings for the module docstring's header fields.
pub fn lint_module_header(path: &str, m: &ModuleInfo) -> (r: Vec<Issue>)
    ensures
        issue_models(r@) == lint_module_header_spec(path@, m@),
{
    proof {
        lemma_all_known();
    }
    let mut out: Vec<Issue> = Vec::new();
    let d = match &m.module_docstring {
        Some(d) => d,
        None => {
            assert(issue_models(out@) =~= Seq::<IssueModel>::empty());
            return out;
        },
    };
    let line: usize = match m.module_docstring_line {
        Some(l) => l,
        None => 1,
    };
    let ls = str_lines(d.as_str());
    let (has_version, has_title, req) = scan_header(&ls);
    if !has_version {
        emit(
            &mut out,
            OWUI030,
            path,
            line,
            1,
            "Module header is missing a `version:` field. Consider adding e.g. `version: 0.1.0`.",
        );
    }
    if !has_title {
        emit(
            &mut out,
            OWUI032,
            path,
            line,
            1,
            "Module header is missing a `title:` field. Open WebUI uses this as the display name in the UI.",
        );
    }
    match req {
        Some(r) => {
            let u = unpinned_requirements(r.as_slice());
            if u.len() > 0 {
                let mut msg: Vec<char> = Vec::new();
                push_str(&mut msg, "Requirements without a version specifier detected: ");
                let joined = join_chars(&u, ", ");
                push_chars(&mut msg, joined.as_slice());
                push_str(&mut msg, ". Consider adding a specifier (e.g. `");
                push_chars(&mut msg, u[0].as_slice());
                push_str(&mut msg, ">=1.2.3` or `");
                push_chars(&mut msg, u[0].as_slice());
                push_str(&mut msg, "==1.2.3`).");
                assert(views(u@)[0] == u@[0]@);
                assert(msg@ =~= requirements_message(views(u@)));
                emit_chars(&mut out, OWUI031, path, line, 1, msg.as_slice());
            }
        },
        None => {},
    }
    assert(issue_models(out@) =~= lint_module_header_spec(path@, m@));
    out
}

// ---------------------------------------------------------------------------
// Modules
// ---------------------------------------------------------------------------

/// Class names (in lower case) that suggest an extension.
pub open spec fn is_suspicious_class_name(n: Seq<char>) -> bool {
    ||| n == "tool"@
    ||| n == "tools"@
    ||| n == "pipe"@
    ||| n == "pipes"@
    ||| n == "filter"@
    ||| n == "filters"@
    ||| n == "action"@
    ||| n == "actions"@
    ||| n == "pipeline"@
    ||| n == "pipelines"@
}

/// Method names that suggest an extension.
pub open spec fn is_suspicious_method(n: Seq<char>) -> bool {
    ||| n == "pipe"@
    ||| n == "pipes"@
    ||| n == "inlet"@
    ||| n == "outlet"@
    ||| n == "stream"@
    ||| n == "action"@
    ||| n == "on_startup"@
    ||| n == "on_shutdown"@
    ||| n == "on_valves_updated"@
}

/// Whether a class looks like an attempted extension.
pub open spec fn class_looks_like_extension(c: ClassModel) -> bool {
    ||| is_suspicious_class_name(ascii_lower(c.name))
    ||| exists|j: int| 0 <= j < c.methods.len() && #[trigger] is_suspicious_method(c.methods[j].name)
}

/// Whether a module looks like an attempted extension.
pub open spec fn looks_like_extension(cs: Seq<ClassModel>) -> bool {
    exists|i: int| 0 <= i < cs.len() && #[trigger] class_looks_like_extension(cs[i])
}

fn class_looks_suspicious(c: &ClassInfo) -> (r: bool)
    ensures
        r == class_looks_like_extension(c@),
{
    let nv = chars_of(c.name.as_str());
    let lv = lower_chars(nv.as_slice());
    let l = lv.as_slice();
    if eq_lit(l, "tool") || eq_lit(l, "tools") || eq_lit(l, "pipe") || eq_lit(l, "pipes")
        || eq_lit(l, "filter") || eq_lit(l, "filters") || eq_lit(l, "action") || eq_lit(
        l,
        "actions",
    ) || eq_lit(l, "pipeline") || eq_lit(l, "pipelines") {
        return true;
    }
    let ghost ms = c@.methods;
    let mut j: usize = 0;
    while j < c.methods.len()
        invariant
            ms == c@.methods,
            !is_suspicious_class_name(ascii_lower(c@.name)),
            j <= c.methods@.len(),
            forall|k: int| 0 <= k < j ==> !#[trigger] is_suspicious_method(ms[k].name),
        decreases c.methods.len() - j,
    {
        let mv = chars_of(c.methods[j].name.as_str());
        let n = mv.as_slice();
        assert(ms[j as int] == c.methods@[j as int]@);
        if eq_lit(n, "pipe") || eq_lit(n, "pipes") || eq_lit(n, "inlet") || eq_lit(n, "outlet")
            || eq_lit(n, "stream") || eq_lit(n, "action") || eq_lit(n, "on_startup") || eq_lit(
            n,
            "on_shutdown",
        ) || eq_lit(n, "on_valves_updated") {
            assert(is_suspicious_method(ms[j as int].name));
            return true;
        }
        j += 1;
    }
    false
}

/// Whether a module looks like an attempted extension.
pub fn looks_like_openwebui_extension(m: &ModuleInfo) -> (r: bool)
    ensures
        r == looks_like_extension(m@.classes),
{
    let ghost cs = m@.classes;
    let mut i: usize = 0;
    while i < m.classes.len()
        invariant
            cs == m@.classes,
            i <= m.classes@.len(),
            forall|k: int| 0 <= k < i ==> !#[trigger] class_looks_like_extension(cs[k]),
        decreases m.classes.len() - i,
    {
        assert(cs[i as int] == m.classes@[i as int]@);
        if class_looks_suspicious(&m.classes[i]) {
            return true;
        }
        i += 1;
    }
    false
}

/// The extension classes among the first `n` classes, in order.
pub open spec fn extension_classes(cs: Seq<ClassModel>, n: int) -> Seq<ClassModel>
    decreases n,
{
    if n <= 0 {
        Seq::empty()
    } else {
        extension_classes(cs, n - 1) + if extension_kind(cs[n - 1].name) is Some {
            seq![cs[n - 1]]
        } else {
            Seq::empty()
        }
    }
}

/// The findings of the extension classes among the first `n` classes.
pub open spec fn class_issues(path: Seq<char>, cs: Seq<ClassModel>, n: int) -> Seq<IssueModel>
    decreases n,
{
    if n <= 0 {
        Seq::empty()
    } else {
        class_issues(path, cs, n - 1) + if extension_kind(cs[n - 1].name) is Some {
            lint_extension_class_spec(path, cs[n - 1])
        } else {
            Seq::empty()
        }
    }
}

/// The names of some classes.
pub open spec fn class_names(cs: Seq<ClassModel>) -> Seq<Seq<char>> {
    cs.map_values(|c: ClassModel| c.name)
}

/// All findings for one analyzed module.
pub open spec fn lint_module_spec(m: ModuleModel) -> Seq<IssueModel> {
    if !m.syntax_ok {
        let line: usize = match m.syntax_error {
            Some(e) => e.line,
            None => 1,
        };
        let column: usize = match m.syntax_error {
            Some(e) => e.column,
            None => 1,
        };
        let message = match m.syntax_error {
            Some(e) => e.message,
            None => "Syntax error"@,
        };
        seq![finding(OWUI001@, m.path, line, column, "Basic Python scan failed: "@ + message)]
    } else {
        let header = lint_module_header_spec(m.path, m);
        let ext = extension_classes(m.classes, m.classes.len() as int);
        if ext.len() == 0 {
            header + one_if(
                looks_like_extension(m.classes),
                finding(
                    OWUI010@,
                    m.path,
                    1,
                    1,
                    "No Open WebUI extension class found (Tools, Pipe, Filter, Action, Pipeline)."@,
                ),
            )
        } else {
            header + one_if(
                ext.len() > 1,
                finding(
                    OWUI011@,
                    m.path,
                    ext[0].line,
                    ext[0].column,
                    "Mixed extension types in one file are not supported: "@ + join(
                        class_names(ext),
                        ", "@,
                    ) + "."@,
                ),
            ) + class_issues(m.path, m.classes, m.classes.len() as int)
        }
    }
}

/// All findings for one analyzed module.
pub fn lint_module(m: &ModuleInfo) -> (r: Vec<Issue>)
    ensures
        issue_models(r@) == lint_module_spec(m@),
{
    proof {
        lemma_all_known();
    }
    let path = m.path.as_str();
    let mut out: Vec<Issue> = Vec::new();
    if !m.syntax_ok {
        let mut msg: Vec<char> = Vec::new();
        push_str(&mut msg, "Basic Python scan failed: ");
        let (line, column) = match &m.syntax_error {
            Some(e) => {
                push_str(&mut msg, e.message.as_str());
                (e.line, e.column)
            },
            None => {
                push_str(&mut msg, "Syntax error");
                (1, 1)
            },
        };
        emit_chars(&mut out, OWUI001, path, line, column, msg.as_slice());
        assert(issue_models(out@) =~= lint_module_spec(m@));
        return out;
    }
    let header = lint_module_header(path, m);
    let ghost cs = m@.classes;
    let mut names: Vec<Vec<char>> = Vec::new();
    let mut count: usize = 0;
    let mut first_line: usize = 0;
    let mut first_column: usize = 0;
    let mut per_class: Vec<Issue> = Vec::new();
    let mut i: usize = 0;
    while i < m.classes.len()
        invariant
            cs == m@.classes,
            path@ == m@.path,
            i <= m.classes@.len(),
            count == extension_classes(cs, i as int).len(),
            count <= i,
            views(names@) == class_names(extension_classes(cs, i as int)),
            count > 0 ==> first_line == extension_classes(cs, i as int)[0].line
                && first_column == extension_classes(cs, i as int)[0].column,
            issue_models(per_class@) == class_issues(path@, cs, i as int),
        decreases m.classes.len() - i,
    {
        let c = &m.classes[i];
        assert(cs[i as int] == c@);
        let ghost ext_before = extension_classes(cs, i as int);
        if extension_type(c.name.as_str()).is_some() {
            if count == 0 {
                first_line = c.line;
                first_column = c.column;
            }
            count += 1;
            let ghost names_before = names@;
            names.push(chars_of(c.name.as_str()));
            assert(extension_classes(cs, i + 1) =~= ext_before.push(c@));
            assert(views(names@) =~= views(names_before).push(c@.name));
            assert(class_names(ext_before.push(c@)) =~= class_names(ext_before).push(c@.name));
            let w = lint_extension_class(path, c);
            append_issues(&mut per_class, w);
        } else {
            assert(extension_classes(cs, i + 1) =~= ext_before);
            assert(issue_models(per_class@) =~= class_issues(path@, cs, i + 1));
        }
        i += 1;
    }
    out = header;
    if count == 0 {
        if looks_like_openwebui_extension(m) {
            emit(
                &mut out,
                OWUI010,
                path,
                1,
                1,
                "No Open WebUI extension class found (Tools, Pipe, Filter, Action, Pipeline).",
            );
        }
        assert(issue_models(out@) =~= lint_module_spec(m@));
        return out;
    }
    if count > 1 {
        let mut msg: Vec<char> = Vec::new();
        push_str(&mut msg, "Mixed extension types in one file are not supported: ");
        let joined = join_chars(&names, ", ");
        push_chars(&mut msg, joined.as_slice());
        push_str(&mut msg, ".");
        emit_chars(&mut out, OWUI011, path, first_line, first_column, msg.as_slice());
    }
    append_issues(&mut out, per_class);
    assert(issue_models(out@) =~= lint_module_spec(m@));
    out
}

// ---------------------------------------------------------------------------
// Rule overrides
// ---------------------------------------------------------------------------

/// What an override does to one finding: `off` drops it, a severity
/// replaces the finding's severity, no override keeps it.
pub open spec fn override_one(x: IssueModel, o: Option<SeverityOverride>) -> Seq<IssueModel> {
    match o {
        Some(SeverityOverride::Off) => Seq::empty(),
        Some(SeverityOverride::Error) => seq![
            IssueModel {
                rule_id: x.rule_id,
                severity: Severity::Error,
                message: x.message,
                path: x.path,
                line: x.line,
                column: x.column,
            },
        ],
        Some(SeverityOverride::Warning) => seq![
            IssueModel {
                rule_id: x.rule_id,
                severity: Severity::Warning,
                message: x.message,
                path: x.path,
                line: x.line,
                column: x.column,
            },
        ],
        None => seq![x],
    }
}

/// The first `n` findings with the overrides applied, in order.
pub open spec fn apply_overrides_spec(
    issues: Seq<IssueModel>,
    overrides: Seq<(Seq<char>, SeverityOverride)>,
    n: int,
) -> Seq<IssueModel>
    decreases n,
{
    if n <= 0 {
        Seq::empty()
    } else {
        apply_overrides_spec(issues, overrides, n - 1) + override_one(
            issues[n - 1],
            lookup(overrides, issues[n - 1].rule_id),
        )
    }
}

/// The findings with the configured rule overrides applied, in order.
pub fn apply_rule_overrides(issues: Vec<Issue>, config: &Config) -> (r: Vec<Issue>)
    requires
        config.wf(),
    ensures
        issue_models(r@) == apply_overrides_spec(
            issue_models(issues@),
            config.rule_overrides@,
            issues@.len() as int,
        ),
{
    let ghost iv = issue_models(issues@);
    let mut out: Vec<Issue> = Vec::new();
    let mut i: usize = 0;
    while i < issues.len()
        invariant
            iv == issue_models(issues@),
            keys_unique(config.rule_overrides@),
            i <= issues@.len(),
            issue_models(out@) == apply_overrides_spec(iv, config.rule_overrides@, i as int),
        decreases issues.len() - i,
    {
        let x = &issues[i];
        assert(iv[i as int] == x@);
        match config.rule_overrides.get(x.rule_id.as_str()) {
            Some(SeverityOverride::Off) => {},
            Some(SeverityOverride::Error) => {
                let mut y = x.duplicate();
                y.severity = Severity::Error;
                push_issue(&mut out, y);
            },
            Some(SeverityOverride::Warning) => {
                let mut y = x.duplicate();
                y.severity = Severity::Warning;
                push_issue(&mut out, y);
            },
            None => {
                push_issue(&mut out, x.duplicate());
            },
        }
        assert(issue_models(out@) =~= apply_overrides_spec(iv, config.rule_overrides@, i + 1));
        i += 1;
    }
    out
}

// ---------------------------------------------------------------------------
// Report order
// ---------------------------------------------------------------------------

/// Lexicographic "less than" of texts `a` and `b`, from position `i` on,
/// character by character.
pub open spec fn lex_lt_from(a: Seq<char>, b: Seq<char>, i: int) -> bool
    decreases a.len() - i,
{
    if i >= a.len() {
        i < b.len()
    } else if i >= b.len() {
        false
    } else if a[i] != b[i] {
        a[i] < b[i]
    } else {
        lex_lt_from(a, b, i + 1)
    }
}

/// Whether text `a` sorts before text `b`.
pub open spec fn text_lt(a: Seq<char>, b: Seq<char>) -> bool {
    lex_lt_from(a, b, 0)
}

/// A component of a `/`-separated path, as `std::path::Component` names
/// the components of a Unix path.
pub enum PartModel {
    RootDir,
    CurDir,
    ParentDir,
    Normal(Seq<char>),
}

/// The place of a component's kind in `std::path::Component`'s order.
pub open spec fn part_rank(p: PartModel) -> int {
    match p {
        PartModel::RootDir => 0,
        PartModel::CurDir => 1,
        PartModel::ParentDir => 2,
        PartModel::Normal(_) => 3,
    }
}

/// Whether component `p` sorts before component `q`: by kind, and plain
/// names by their text.
pub open spec fn part_lt(p: PartModel, q: PartModel) -> bool {
    ||| part_rank(p) < part_rank(q)
    ||| (p matches PartModel::Normal(a) && q matches PartModel::Normal(b) && text_lt(a, b))
}

/// The component that a piece between separators gives: none for an empty
/// piece or `.`, the parent directory for `..`, else a plain name.
pub open spec fn piece_part(piece: Seq<char>) -> Seq<PartModel> {
    if piece.len() == 0 || piece == seq!['.'] {
        Seq::empty()
    } else if piece == seq!['.', '.'] {
        seq![PartModel::ParentDir]
    } else {
        seq![PartModel::Normal(piece)]
    }
}

/// The components of the pieces of `s[start..]`, scanning at `i`.
pub open spec fn parts_from(s: Seq<char>, start: int, i: int) -> Seq<PartModel>
    decreases s.len() - i,
{
    if i < start || i >= s.len() {
        if 0 <= start <= s.len() {
            piece_part(s.subrange(start, s.len() as int))
        } else {
            Seq::empty()
        }
    } else if s[i] == '/' {
        piece_part(s.subrange(start, i)) + parts_from(s, i + 1, i + 1)
    } else {
        parts_from(s, start, i + 1)
    }
}

/// Whether path `s` starts at the root.
pub open spec fn has_root(s: Seq<char>) -> bool {
    s.len() > 0 && s[0] == '/'
}

/// Whether relative path `s` starts with the piece `.`.
pub open spec fn has_cur_dir(s: Seq<char>) -> bool {
    !has_root(s) && s.len() > 0 && s[0] == '.' && (s.len() == 1 || s[1] == '/')
}

/// The components of path `s`, as `Path::components` gives them on Unix:
/// the root for a leading `/`, the current directory for a relative path
/// whose first piece is `.`, then one for each piece between separators
/// other than an empty one or `.`.
pub open spec fn path_parts(s: Seq<char>) -> Seq<PartModel> {
    (if has_root(s) {
        seq![PartModel::RootDir]
    } else {
        Seq::empty()
    }) + (if has_cur_dir(s) {
        seq![PartModel::CurDir]
    } else {
        Seq::empty()
    }) + parts_from(s, 0, 0)
}

/// Lexicographic order of component lists, from position `i` on.
pub open spec fn parts_lt_from(a: Seq<PartModel>, b: Seq<PartModel>, i: int) -> bool
    decreases a.len() - i,
{
    if i >= a.len() {
        i < b.len()
    } else if i >= b.len() {
        false
    } else if a[i] != b[i] {
        part_lt(a[i], b[i])
    } else {
        parts_lt_from(a, b, i + 1)
    }
}

/// Whether path `a` sorts before path `b`: component by component, as
/// `Path`'s order compares them.
pub open spec fn path_lt(a: Seq<char>, b: Seq<char>) -> bool {
    parts_lt_from(path_parts(a), path_parts(b), 0)
}

/// Whether two paths have the same components, as equal `Path`s do.
pub open spec fn same_path(a: Seq<char>, b: Seq<char>) -> bool {
    path_parts(a) == path_parts(b)
}

/// The report order of findings: by path, then line, then column, then rule.
pub open spec fn issue_before(x: IssueModel, y: IssueModel) -> bool {
    ||| path_lt(x.path, y.path)
    ||| same_path(x.path, y.path) && x.line < y.line
    ||| same_path(x.path, y.path) && x.line == y.line && x.column < y.column
    ||| same_path(x.path, y.path) && x.line == y.line && x.column == y.column && text_lt(
        x.rule_id,
        y.rule_id,
    )
}

/// Where a stable insertion puts `x` into `s`: before the first element,
/// from `j` on, that `x` sorts before, or at the end.
pub open spec fn insert_pos(s: Seq<IssueModel>, x: IssueModel, j: int) -> int
    decreases s.len() - j,
{
    if j < 0 || j >= s.len() {
        s.len() as int
    } else if issue_before(x, s[j]) {
        j
    } else {
        insert_pos(s, x, j + 1)
    }
}

/// The findings in report order; findings that compare equal keep their
/// relative order.
pub open spec fn sort_spec(s: Seq<IssueModel>) -> Seq<IssueModel>
    decreases s.len(),
{
    if s.len() == 0 {
        s
    } else {
        let r = sort_spec(s.drop_last());
        r.insert(insert_pos(r, s.last(), 0), s.last())
    }
}

/// Whether findings are in report order.
pub open spec fn in_report_order(s: Seq<IssueModel>) -> bool {
    forall|i: int, j: int| 0 <= i < j < s.len() ==> !issue_before(#[trigger] s[j], #[trigger] s[i])
}

fn lex_lt(a: &[char], b: &[char]) -> (r: bool)
    ensures
        r == lex_lt_from(a@, b@, 0),
{
    let na = a.len();
    let nb = b.len();
    let mut i: usize = 0;
    loop
        invariant
            na == a@.len(),
            nb == b@.len(),
            i <= na,
            i <= nb,
            lex_lt_from(a@, b@, 0) == lex_lt_from(a@, b@, i as int),
        decreases na - i,
    {
        if i >= na {
            return i < nb;
        }
        if i >= nb {
            return false;
        }
        if a[i] != b[i] {
            return a[i] < b[i];
        }
        i += 1;
    }
}

/// A component of a path, as `path_parts` describes it.
pub enum PathPart {
    RootDir,
    CurDir,
    ParentDir,
    Normal(Vec<char>),
}

impl View for PathPart {
    type V = PartModel;

    open spec fn view(&self) -> PartModel {
        match self {
            PathPart::RootDir => PartModel::RootDir,
            PathPart::CurDir => PartModel::CurDir,
            PathPart::ParentDir => PartModel::ParentDir,
            PathPart::Normal(v) => PartModel::Normal(v@),
        }
    }
}

/// The views of a list of components.
pub open spec fn part_views(v: Seq<PathPart>) -> Seq<PartModel> {
    v.map_values(|p: PathPart| p@)
}

fn push_piece(out: &mut Vec<PathPart>, s: &[char], start: usize, end: usize)
    requires
        start <= end <= s@.len(),
    ensures
        part_views(final(out)@) == part_views(old(out)@) + piece_part(
            s@.subrange(start as int, end as int),
        ),
{
    let ghost before = part_views(out@);
    let ghost piece = s@.subrange(start as int, end as int);
    let n = end - start;
    if n > 0 {
        assert(piece[0] == s@[start as int]);
    }
    if n > 1 {
        assert(piece[1] == s@[start + 1]);
    }
    if n == 0 || (n == 1 && s[start] == '.') {
        if n == 1 {
            assert(piece =~= seq!['.']);
        }
        assert(before + piece_part(piece) =~= before);
    } else if n == 2 && s[start] == '.' && s[start + 1] == '.' {
        assert(piece =~= seq!['.', '.']);
        assert(piece != seq!['.']);
        out.push(PathPart::ParentDir);
        assert(part_views(out@) =~= before + seq![PartModel::ParentDir]);
    } else {
        proof {
            if piece == seq!['.'] {
                assert(seq!['.'].len() == 1 && seq!['.'][0] == '.');
                assert(false);
            }
            if piece == seq!['.', '.'] {
                assert(seq!['.', '.'].len() == 2 && seq!['.', '.'][0] == '.' && seq!['.', '.'][1]
                    == '.');
                assert(false);
            }
        }
        let v = slice_copy(s, start, end);
        out.push(PathPart::Normal(v));
        assert(part_views(out@) =~= before + seq![PartModel::Normal(piece)]);
    }
}

/// The components of path `s`.
pub fn parts_of(s: &[char]) -> (v: Vec<PathPart>)
    ensures
        part_views(v@) == path_parts(s@),
{
    let n = s.len();
    let mut out: Vec<PathPart> = Vec::new();
    let root = n > 0 && s[0] == '/';
    if root {
        out.push(PathPart::RootDir);
    }
    if !root && n > 0 && s[0] == '.' && (n == 1 || s[1] == '/') {
        out.push(PathPart::CurDir);
    }
    assert(part_views(out@) =~= (if has_root(s@) {
        seq![PartModel::RootDir]
    } else {
        Seq::empty()
    }) + (if has_cur_dir(s@) {
        seq![PartModel::CurDir]
    } else {
        Seq::empty()
    }));
    let mut start: usize = 0;
    let mut i: usize = 0;
    while i < n
        invariant
            n == s@.len(),
            start <= i <= n,
            path_parts(s@) == part_views(out@) + parts_from(s@, start as int, i as int),
        decreases n - i,
    {
        if s[i] == '/' {
            let ghost before = part_views(out@);
            push_piece(&mut out, s, start, i);
            assert(parts_from(s@, start as int, i as int) == piece_part(
                s@.subrange(start as int, i as int),
            ) + parts_from(s@, i + 1, i + 1));
            assert(before + (piece_part(s@.subrange(start as int, i as int)) + parts_from(
                s@,
                i + 1,
                i + 1,
            )) =~= part_views(out@) + parts_from(s@, i + 1, i + 1));
            start = i + 1;
        }
        i += 1;
    }
    let ghost before = part_views(out@);
    push_piece(&mut out, s, start, n);
    assert(parts_from(s@, start as int, n as int) == piece_part(s@.subrange(start as int, n as int)));
    out
}

fn part_rank_of(p: &PathPart) -> (r: u8)
    ensures
        r == part_rank(p@),
{
    match p {
        PathPart::RootDir => 0,
        PathPart::CurDir => 1,
        PathPart::ParentDir => 2,
        PathPart::Normal(_) => 3,
    }
}

fn part_less(p: &PathPart, q: &PathPart) -> (r: bool)
    ensures
        r == part_lt(p@, q@),
{
    let rp = part_rank_of(p);
    let rq = part_rank_of(q);
    if rp != rq {
        return rp < rq;
    }
    match (p, q) {
        (PathPart::Normal(a), PathPart::Normal(b)) => lex_lt(a.as_slice(), b.as_slice()),
        _ => false,
    }
}

fn part_same(p: &PathPart, q: &PathPart) -> (r: bool)
    ensures
        r == (p@ == q@),
{
    match (p, q) {
        (PathPart::RootDir, PathPart::RootDir) => true,
        (PathPart::CurDir, PathPart::CurDir) => true,
        (PathPart::ParentDir, PathPart::ParentDir) => true,
        (PathPart::Normal(a), PathPart::Normal(b)) => crate::text::chars_eq(a.as_slice(), b.as_slice()),
        _ => false,
    }
}

fn parts_less(a: &Vec<PathPart>, b: &Vec<PathPart>) -> (r: bool)
    ensures
        r == parts_lt_from(part_views(a@), part_views(b@), 0),
{
    let ghost av = part_views(a@);
    let ghost bv = part_views(b@);
    let na = a.len();
    let nb = b.len();
    let mut i: usize = 0;
    loop
        invariant
            av == part_views(a@),
            bv == part_views(b@),
            na == a@.len(),
            nb == b@.len(),
            i <= na,
            i <= nb,
            parts_lt_from(av, bv, 0) == parts_lt_from(av, bv, i as int),
        decreases na - i,
    {
        if i >= na {
            return i < nb;
        }
        if i >= nb {
            return false;
        }
        assert(av[i as int] == a@[i as int]@);
        assert(bv[i as int] == b@[i as int]@);
        if !part_same(&a[i], &b[i]) {
            return part_less(&a[i], &b[i]);
        }
        i += 1;
    }
}

fn parts_equal(a: &Vec<PathPart>, b: &Vec<PathPart>) -> (r: bool)
    ensures
        r == (part_views(a@) == part_views(b@)),
{
    let ghost av = part_views(a@);
    let ghost bv = part_views(b@);
    if a.len() != b.len() {
        assert(av.len() != bv.len());
        return false;
    }
    let mut i: usize = 0;
    while i < a.len()
        invariant
            av == part_views(a@),
            bv == part_views(b@),
            a@.len() == b@.len(),
            i <= a@.len(),
            forall|k: int| 0 <= k < i ==> av[k] == bv[k],
        decreases a.len() - i,
    {
        assert(av[i as int] == a@[i as int]@);
        assert(bv[i as int] == b@[i as int]@);
        if !part_same(&a[i], &b[i]) {
            return false;
        }
        i += 1;
    }
    assert(av =~= bv);
    true
}

/// Whether path `a` sorts before path `b`, component by component.
pub fn path_less(a: &str, b: &str) -> (r: bool)
    ensures
        r == path_lt(a@, b@),
{
    let pa = parts_of(chars_of(a).as_slice());
    let pb = parts_of(chars_of(b).as_slice());
    parts_less(&pa, &pb)
}

/// Whether paths `a` and `b` have the same components.
pub fn path_same(a: &str, b: &str) -> (r: bool)
    ensures
        r == same_path(a@, b@),
{
    let pa = parts_of(chars_of(a).as_slice());
    let pb = parts_of(chars_of(b).as_slice());
    parts_equal(&pa, &pb)
}

/// Whether finding `a` is reported before finding `b`.
pub fn issue_sorts_before(a: &Issue, b: &Issue) -> (r: bool)
    ensures
        r == issue_before(a@, b@),
{
    if path_less(a.path.as_str(), b.path.as_str()) {
        return true;
    }
    if !path_same(a.path.as_str(), b.path.as_str()) {
        return false;
    }
    if a.line != b.line {
        return a.line < b.line;
    }
    if a.column != b.column {
        return a.column < b.column;
    }
    let ra = chars_of(a.rule_id.as_str());
    let rb = chars_of(b.rule_id.as_str());
    lex_lt(ra.as_slice(), rb.as_slice())
}

/// The findings in report order: by path, line, column and rule id, with
/// findings that compare equal kept in the order they came.
pub fn sort_issues(v: &Vec<Issue>) -> (r: Vec<Issue>)
    ensures
        issue_models(r@) == sort_spec(issue_models(v@)),
{
    let ghost vv = issue_models(v@);
    let mut out: Vec<Issue> = Vec::new();
    let mut i: usize = 0;
    assert(vv.subrange(0, 0) =~= Seq::<IssueModel>::empty());
    while i < v.len()
        invariant
            vv == issue_models(v@),
            i <= v@.len(),
            issue_models(out@) == sort_spec(vv.subrange(0, i as int)),
        decreases v.len() - i,
    {
        let x = v[i].duplicate();
        let ghost om = issue_models(out@);
        let mut j: usize = 0;
        while j < out.len() && !issue_sorts_before(&x, &out[j])
            invariant
                om == issue_models(out@),
                j <= out@.len(),
                insert_pos(om, x@, 0) == insert_pos(om, x@, j as int),
            decreases out.len() - j,
        {
            assert(om[j as int] == out@[j as int]@);
            j += 1;
        }
        proof {
            if j < out@.len() {
                assert(om[j as int] == out@[j as int]@);
            }
            assert(insert_pos(om, x@, j as int) == j);
        }
        let ghost before = out@;
        out.insert(j, x);
        proof {
            assert(issue_models(out@) =~= om.insert(j as int, x@));
            let p = vv.subrange(0, i + 1);
            assert(p.drop_last() =~= vv.subrange(0, i as int));
            assert(p.last() == x@);
        }
        i += 1;
    }
    assert(vv.subrange(0, i as int) =~= vv);
    out
}

// ---------------------------------------------------------------------------
// Linting files
// ---------------------------------------------------------------------------

/// The findings of the first `n` files, file by file, before overrides.
pub open spec fn raw_issues(fs: Seq<SourceFileModel>, n: int) -> Seq<IssueModel>
    decreases n,
{
    if n <= 0 {
        Seq::empty()
    } else {
        raw_issues(fs, n - 1) + lint_module_spec(module_of(fs[n - 1]))
    }
}

/// The reported findings of a lint run: every file's findings, with the
/// overrides applied, in report order.
pub open spec fn lint_files_spec(fs: Seq<SourceFileModel>, cfg: ConfigModel) -> Seq<IssueModel> {
    let raw = raw_issues(fs, fs.len() as int);
    sort_spec(apply_overrides_spec(raw, cfg.overrides, raw.len() as int))
}

/// How many of the first `n` findings have severity `sev`.
pub open spec fn count_severity(s: Seq<IssueModel>, sev: Severity, n: int) -> nat
    decreases n,
{
    if n <= 0 {
        0
    } else {
        count_severity(s, sev, n - 1) + if s[n - 1].severity == sev {
            1nat
        } else {
            0nat
        }
    }
}

/// How many findings have severity `sev`.
pub fn count_issues(v: &Vec<Issue>, sev: Severity) -> (r: usize)
    ensures
        r == count_severity(issue_models(v@), sev, v@.len() as int),
{
    let ghost vv = issue_models(v@);
    let mut count: usize = 0;
    let mut i: usize = 0;
    while i < v.len()
        invariant
            vv == issue_models(v@),
            i <= v@.len(),
            count <= i,
            count == count_severity(vv, sev, i as int),
        decreases v.len() - i,
    {
        assert(vv[i as int] == v@[i as int]@);
        if v[i].severity == sev {
            count += 1;
        }
        i += 1;
    }
    count
}

/// Lints the given files: the findings of every file, with the configured
/// overrides applied, in report order, and the counts of the run.
pub fn lint_files(files: &[SourceFile], config: &Config) -> (r: (Vec<Issue>, LintSummary))
    requires
        config.wf(),
        forall|i: int| 0 <= i < files@.len() ==> file_fits(#[trigger] files@[i]@),
    ensures
        issue_models(r.0@) == lint_files_spec(file_models(files@), config@),
        r.1.files_scanned == files@.len(),
        r.1.errors == count_severity(issue_models(r.0@), Severity::Error, r.0@.len() as int),
        r.1.warnings == count_severity(issue_models(r.0@), Severity::Warning, r.0@.len() as int),
{
    let ghost fv = file_models(files@);
    let mut issues: Vec<Issue> = Vec::new();
    let mut i: usize = 0;
    while i < files.len()
        invariant
            fv == file_models(files@),
            forall|k: int| 0 <= k < files@.len() ==> file_fits(#[trigger] files@[k]@),
            i <= files@.len(),
            issue_models(issues@) == raw_issues(fv, i as int),
        decreases files.len() - i,
    {
        let f = &files[i];
        assert(fv[i as int] == f@);
        let module = analyze_file(f);
        let w = lint_module(&module);
        append_issues(&mut issues, w);
        i += 1;
    }
    let filtered = apply_rule_overrides(issues, config);
    let sorted = sort_issues(&filtered);
    let errors = count_issues(&sorted, Severity::Error);
    let warnings = count_issues(&sorted, Severity::Warning);
    let summary = LintSummary { files_scanned: files.len(), errors, warnings };
    (sorted, summary)
}

/// Lints one file's text as if it were read from `path`.
pub fn lint_source(path: &str, source: &str, config: &Config) -> (r: (Vec<Issue>, LintSummary))
    requires
        config.wf(),
        source@.len() <= usize::MAX / 8,
    ensures
        issue_models(r.0@) == lint_files_spec(
            seq![SourceFileModel { path: path@, contents: Ok(source@) }],
            config@,
        ),
        r.1.files_scanned == 1,
        r.1.errors == count_severity(issue_models(r.0@), Severity::Error, r.0@.len() as int),
        r.1.warnings == count_severity(issue_models(r.0@), Severity::Warning, r.0@.len() as int),
{
    let f = SourceFile {
        path: string_of(chars_of(path).as_slice()),
        contents: Ok(string_of(chars_of(source).as_slice())),
    };
    let files = vec![f];
    assert(file_models(files@) =~= seq![SourceFileModel { path: path@, contents: Ok(source@) }]);
    lint_files(files.as_slice(), config)
}

// ---------------------------------------------------------------------------
// File selection
// ---------------------------------------------------------------------------

/// A path with its separators written as `/`.
pub open spec fn normalized(path: Seq<char>) -> Seq<char> {
    path.map_values(|c: char| if c == '\\' { '/' } else { c })
}

/// A path with its separators written as `/`.
pub fn normalize_path(path: &str) -> (r: String)
    ensures
        r@ == normalized(path@),
{
    let cs = chars_of(path);
    let mut out: Vec<char> = Vec::new();
    let mut i: usize = 0;
    while i < cs.len()
        invariant
            cs@ == path@,
            i <= cs@.len(),
            out@ == normalized(cs@.subrange(0, i as int)),
        decreases cs.len() - i,
    {
        let c = cs[i];
        out.push(if c == '\\' { '/' } else { c });
        assert(normalized(cs@.subrange(0, i + 1)) =~= normalized(cs@.subrange(0, i as int)).push(
            if c == '\\' { '/' } else { c },
        ));
        i += 1;
    }
    assert(cs@.subrange(0, i as int) =~= cs@);
    string_of(out.as_slice())
}

/// Whether one of the patterns matches the relative or the absolute form of
/// a path.
pub open spec fn matches_either(
    patterns: Seq<Seq<char>>,
    relative: Seq<char>,
    absolute: Seq<char>,
) -> bool {
    exists|i: int|
        0 <= i < patterns.len() && (glob(#[trigger] patterns[i], relative) || glob(
            patterns[i],
            absolute,
        ))
}

/// Whether a discovered file is linted: no exclusion pattern matches it,
/// and an inclusion pattern does unless there are none.
pub open spec fn included_spec(
    relative: Seq<char>,
    absolute: Seq<char>,
    inclusions: Seq<Seq<char>>,
    exclusions: Seq<Seq<char>>,
) -> bool {
    !matches_either(exclusions, relative, absolute) && (inclusions.len() == 0 || matches_either(
        inclusions,
        relative,
        absolute,
    ))
}

fn any_matches(patterns: &Vec<String>, relative: &str, absolute: &str) -> (r: bool)
    requires
        relative@.len() < usize::MAX,
        absolute@.len() < usize::MAX,
    ensures
        r == matches_either(crate::models::strs(patterns@), relative@, absolute@),
{
    let ghost ps = crate::models::strs(patterns@);
    let mut i: usize = 0;
    while i < patterns.len()
        invariant
            ps == crate::models::strs(patterns@),
            relative@.len() < usize::MAX,
            absolute@.len() < usize::MAX,
            i <= patterns@.len(),
            forall|k: int|
                0 <= k < i ==> !(glob(#[trigger] ps[k], relative@) || glob(ps[k], absolute@)),
        decreases patterns.len() - i,
    {
        assert(ps[i as int] == patterns@[i as int]@);
        if glob_match(patterns[i].as_str(), relative) || glob_match(patterns[i].as_str(), absolute) {
            return true;
        }
        i += 1;
    }
    false
}

/// Whether a discovered file is linted, given its path relative to the
/// working directory (or its absolute path when it lies outside) and its
/// absolute path, both with `/` separators.
pub fn included(relative: &str, absolute: &str, inclusions: &Vec<String>, exclusions: &Vec<String>) -> (r:
    bool)
    requires
        relative@.len() < usize::MAX,
        absolute@.len() < usize::MAX,
    ensures
        r == included_spec(
            relative@,
            absolute@,
            crate::models::strs(inclusions@),
            crate::models::strs(exclusions@),
        ),
{
    if any_matches(exclusions, relative, absolute) {
        return false;
    }
    if inclusions.len() == 0 {
        return true;
    }
    any_matches(inclusions, relative, absolute)
}

/// A file found under a lint target: its canonical path and its path
/// relative to the working directory (or the canonical path when it lies
/// outside), both with `/` separators.
pub struct Candidate {
    pub absolute: String,
    pub relative: String,
}

impl View for Candidate {
    type V = (Seq<char>, Seq<char>);

    open spec fn view(&self) -> (Seq<char>, Seq<char>) {
        (self.absolute@, self.relative@)
    }
}

/// The views of a list of candidates.
pub open spec fn candidate_views(cands: Seq<Candidate>) -> Seq<(Seq<char>, Seq<char>)> {
    cands.map_values(|c: Candidate| c@)
}

/// Whether some candidate with canonical path `path` is included.
pub open spec fn selected(
    cands: Seq<(Seq<char>, Seq<char>)>,
    inclusions: Seq<Seq<char>>,
    exclusions: Seq<Seq<char>>,
    path: Seq<char>,
) -> bool {
    exists|c: int|
        0 <= c < cands.len() && (#[trigger] cands[c]).0 == path && included_spec(
            cands[c].1,
            path,
            inclusions,
            exclusions,
        )
}

/// Whether `s` is strictly increasing in path order, so that no two paths
/// have the same components.
pub open spec fn paths_ascending(s: Seq<Seq<char>>) -> bool {
    forall|i: int, j: int| 0 <= i < j < s.len() ==> path_lt(#[trigger] s[i], #[trigger] s[j])
}

/// Two different texts are ordered one way or the other.
proof fn lemma_lex_total(a: Seq<char>, b: Seq<char>, i: int)
    requires
        0 <= i <= a.len(),
        i <= b.len(),
        a != b,
        forall|k: int| 0 <= k < i ==> a[k] == b[k],
    ensures
        lex_lt_from(a, b, i) || lex_lt_from(b, a, i),
    decreases a.len() - i,
{
    if i == a.len() && i == b.len() {
        assert(a =~= b);
    } else if i < a.len() && i < b.len() && a[i] == b[i] {
        lemma_lex_total(a, b, i + 1);
    }
}

/// Component order is a strict total order.
proof fn lemma_part_order(p: PartModel, q: PartModel, r: PartModel)
    ensures
        !part_lt(p, p),
        p != q ==> part_lt(p, q) || part_lt(q, p),
        part_lt(p, q) && part_lt(q, r) ==> part_lt(p, r),
{
    if let PartModel::Normal(a) = p {
        lemma_lex_irreflexive(a, 0);
        if let PartModel::Normal(b) = q {
            if a != b {
                lemma_lex_total(a, b, 0);
            }
            if let PartModel::Normal(c) = r {
                if text_lt(a, b) && text_lt(b, c) {
                    lemma_lex_transitive(a, b, c, 0);
                }
            }
        }
    }
}

proof fn lemma_parts_irreflexive(a: Seq<PartModel>, i: int)
    requires
        0 <= i,
    ensures
        !parts_lt_from(a, a, i),
    decreases a.len() - i,
{
    if i < a.len() {
        lemma_parts_irreflexive(a, i + 1);
    }
}

proof fn lemma_parts_transitive(a: Seq<PartModel>, b: Seq<PartModel>, c: Seq<PartModel>, i: int)
    requires
        0 <= i,
        parts_lt_from(a, b, i),
        parts_lt_from(b, c, i),
    ensures
        parts_lt_from(a, c, i),
    decreases a.len() - i,
{
    if i < a.len() && i < b.len() && i < c.len() {
        lemma_part_order(a[i], b[i], c[i]);
        lemma_part_order(c[i], b[i], a[i]);
        if a[i] == b[i] && b[i] == c[i] {
            lemma_parts_transitive(a, b, c, i + 1);
        }
    }
}

proof fn lemma_parts_total(a: Seq<PartModel>, b: Seq<PartModel>, i: int)
    requires
        0 <= i <= a.len(),
        i <= b.len(),
        a != b,
        forall|k: int| 0 <= k < i ==> a[k] == b[k],
    ensures
        parts_lt_from(a, b, i) || parts_lt_from(b, a, i),
    decreases a.len() - i,
{
    if i == a.len() && i == b.len() {
        assert(a =~= b);
    } else if i < a.len() && i < b.len() {
        if a[i] == b[i] {
            lemma_parts_total(a, b, i + 1);
        } else {
            lemma_part_order(a[i], b[i], b[i]);
        }
    }
}

/// Path order is a strict order, total on paths with different components.
pub proof fn lemma_path_order(a: Seq<char>, b: Seq<char>, c: Seq<char>)
    ensures
        !path_lt(a, a),
        !same_path(a, b) ==> path_lt(a, b) || path_lt(b, a),
        path_lt(a, b) && path_lt(b, c) ==> path_lt(a, c),
{
    lemma_parts_irreflexive(path_parts(a), 0);
    if !same_path(a, b) {
        lemma_parts_total(path_parts(a), path_parts(b), 0);
    }
    if path_lt(a, b) && path_lt(b, c) {
        lemma_parts_transitive(path_parts(a), path_parts(b), path_parts(c), 0);
    }
}

/// The canonical paths of the included candidates, each once, in path
/// order: the files a lint run reads.
pub fn select_sources(cands: &[Candidate], inclusions: &Vec<String>, exclusions: &Vec<String>) -> (r: Vec<
    String,
>)
    requires
        forall|c: int|
            0 <= c < cands@.len() ==> (#[trigger] cands@[c]).absolute@.len() < usize::MAX
                && cands@[c].relative@.len() < usize::MAX,
    ensures
        paths_ascending(crate::models::strs(r@)),
        forall|k: int|
            0 <= k < r@.len() ==> selected(
                candidate_views(cands@),
                crate::models::strs(inclusions@),
                crate::models::strs(exclusions@),
                #[trigger] r@[k]@,
            ),
        forall|p: Seq<char>|
            #[trigger] selected(
                candidate_views(cands@),
                crate::models::strs(inclusions@),
                crate::models::strs(exclusions@),
                p,
            ) ==> exists|k: int| 0 <= k < r@.len() && same_path((#[trigger] r@[k])@, p),
{
    let ghost cs = candidate_views(cands@);
    let ghost inc = crate::models::strs(inclusions@);
    let ghost exc = crate::models::strs(exclusions@);
    let mut out: Vec<String> = Vec::new();
    let mut i: usize = 0;
    while i < cands.len()
        invariant
            cs == candidate_views(cands@),
            inc == crate::models::strs(inclusions@),
            exc == crate::models::strs(exclusions@),
            forall|c: int|
                0 <= c < cands@.len() ==> (#[trigger] cands@[c]).absolute@.len() < usize::MAX
                    && cands@[c].relative@.len() < usize::MAX,
            i <= cands@.len(),
            paths_ascending(crate::models::strs(out@)),
            forall|k: int| 0 <= k < out@.len() ==> selected(cs, inc, exc, #[trigger] out@[k]@),
            forall|c: int|
                0 <= c < i && included_spec(cs[c].1, cs[c].0, inc, exc) ==> exists|k: int|
                    0 <= k < out@.len() && same_path((#[trigger] out@[k])@, (#[trigger] cs[c]).0),
        decreases cands.len() - i,
    {
        let cand = &cands[i];
        assert(cs[i as int] == cand@);
        if included(cand.relative.as_str(), cand.absolute.as_str(), inclusions, exclusions) {
            let a = chars_of(cand.absolute.as_str());
            let ghost so = crate::models::strs(out@);
            let mut j: usize = 0;
            while j < out.len() && path_less(out[j].as_str(), cand.absolute.as_str())
                invariant
                    so == crate::models::strs(out@),
                    a@ == cand.absolute@,
                    j <= out@.len(),
                    forall|k: int| 0 <= k < j ==> path_lt(#[trigger] so[k], a@),
                decreases out.len() - j,
            {
                assert(so[j as int] == out@[j as int]@);
                j += 1;
            }
            let present = j < out.len() && path_same(out[j].as_str(), cand.absolute.as_str());
            proof {
                assert(selected(cs, inc, exc, a@)) by {
                    assert(cs[i as int].0 == a@);
                }
            }
            if !present {
                proof {
                    if j < out@.len() {
                        assert(so[j as int] == out@[j as int]@);
                        lemma_path_order(so[j as int], a@, a@);
                        assert(!same_path(so[j as int], a@));
                        assert(path_lt(a@, so[j as int]));
                    }
                }
                let x = string_of(a.as_slice());
                let ghost old_out = out@;
                out.insert(j, x);
                proof {
                    let sn = crate::models::strs(out@);
                    assert(out@ =~= old_out.insert(j as int, x));
                    assert(sn =~= so.insert(j as int, a@));
                    assert forall|p: int, q: int| 0 <= p < q < sn.len() implies path_lt(
                        #[trigger] sn[p],
                        #[trigger] sn[q],
                    ) by {
                        if q < j {
                            assert(path_lt(so[p], so[q]));
                        } else if p < j && q == j {
                        } else if p < j && q > j {
                            if q - 1 > j {
                                lemma_path_order(a@, so[j as int], so[q - 1]);
                            }
                            lemma_path_order(so[p], a@, so[q - 1]);
                        } else if p == j {
                            if q - 1 > j {
                                lemma_path_order(a@, so[j as int], so[q - 1]);
                            }
                        } else {
                            assert(path_lt(so[p - 1], so[q - 1]));
                        }
                    }
                    assert forall|k: int| 0 <= k < out@.len() implies selected(
                        cs,
                        inc,
                        exc,
                        #[trigger] out@[k]@,
                    ) by {
                        if k < j {
                            assert(out@[k] == old_out[k]);
                        } else if k > j {
                            assert(out@[k] == old_out[k - 1]);
                        }
                    }
                    assert forall|c: int|
                        0 <= c < i && included_spec(cs[c].1, cs[c].0, inc, exc) implies exists|k: int|
                        0 <= k < out@.len() && same_path((#[trigger] out@[k])@, (#[trigger] cs[c]).0) by {
                        let k0 = choose|k: int|
                            0 <= k < old_out.len() && same_path((#[trigger] old_out[k])@, cs[c].0);
                        if k0 < j {
                            assert(out@[k0] == old_out[k0]);
                        } else {
                            assert(out@[k0 + 1] == old_out[k0]);
                        }
                    }
                    assert(out@[j as int]@ == cs[i as int].0);
                    assert(same_path(out@[j as int]@, cs[i as int].0));
                }
            } else {
                proof {
                    assert(same_path(out@[j as int]@, cs[i as int].0));
                }
            }
        }
        i += 1;
    }
    out
}

// ---------------------------------------------------------------------------
// Laws
// ---------------------------------------------------------------------------

proof fn lemma_lex_irreflexive(a: Seq<char>, i: int)
    requires
        0 <= i,
    ensures
        !lex_lt_from(a, a, i),
    decreases a.len() - i,
{
    if i < a.len() {
        lemma_lex_irreflexive(a, i + 1);
    }
}

proof fn lemma_lex_transitive(a: Seq<char>, b: Seq<char>, c: Seq<char>, i: int)
    requires
        0 <= i,
        lex_lt_from(a, b, i),
        lex_lt_from(b, c, i),
    ensures
        lex_lt_from(a, c, i),
    decreases a.len() - i,
{
    if i < a.len() && i < b.len() && i < c.len() && a[i] == b[i] && b[i] == c[i] {
        lemma_lex_transitive(a, b, c, i + 1);
    }
}

/// The text order is transitive.
pub proof fn lemma_text_transitive(a: Seq<char>, b: Seq<char>, c: Seq<char>)
    requires
        text_lt(a, b),
        text_lt(b, c),
    ensures
        text_lt(a, c),
{
    lemma_lex_transitive(a, b, c, 0);
}

/// No finding is reported before itself.
pub proof fn lemma_issue_before_irreflexive(x: IssueModel)
    ensures
        !issue_before(x, x),
{
    lemma_path_order(x.path, x.path, x.path);
    lemma_lex_irreflexive(x.rule_id, 0);
}

/// The report order is transitive.
pub proof fn lemma_issue_before_transitive(x: IssueModel, y: IssueModel, z: IssueModel)
    requires
        issue_before(x, y),
        issue_before(y, z),
    ensures
        issue_before(x, z),
{
    lemma_path_order(x.path, y.path, z.path);
    if same_path(x.path, y.path) && same_path(y.path, z.path) && x.line == y.line && y.line
        == z.line && x.column == y.column && y.column == z.column && text_lt(x.rule_id, y.rule_id)
        && text_lt(y.rule_id, z.rule_id) {
        lemma_lex_transitive(x.rule_id, y.rule_id, z.rule_id, 0);
    }
}

/// Two findings are never each reported before the other.
pub proof fn lemma_issue_before_asymmetric(x: IssueModel, y: IssueModel)
    ensures
        !(issue_before(x, y) && issue_before(y, x)),
{
    if issue_before(x, y) && issue_before(y, x) {
        lemma_issue_before_transitive(x, y, x);
        lemma_issue_before_irreflexive(x);
    }
}

proof fn lemma_insert_pos(s: Seq<IssueModel>, x: IssueModel, j: int)
    requires
        0 <= j <= s.len(),
    ensures
        j <= insert_pos(s, x, j) <= s.len(),
        forall|k: int| j <= k < insert_pos(s, x, j) ==> !issue_before(x, #[trigger] s[k]),
        insert_pos(s, x, j) < s.len() ==> issue_before(x, s[insert_pos(s, x, j)]),
    decreases s.len() - j,
{
    if j < s.len() && !issue_before(x, s[j]) {
        lemma_insert_pos(s, x, j + 1);
    }
}

proof fn lemma_insert_keeps_order(s: Seq<IssueModel>, x: IssueModel)
    requires
        in_report_order(s),
    ensures
        in_report_order(s.insert(insert_pos(s, x, 0), x)),
{
    lemma_insert_pos(s, x, 0);
    let p = insert_pos(s, x, 0);
    let t = s.insert(p, x);
    assert forall|i: int, j: int| 0 <= i < j < t.len() implies !issue_before(
        #[trigger] t[j],
        #[trigger] t[i],
    ) by {
        if j == p {
            assert(t[i] == s[i]);
        } else if i == p {
            assert(t[j] == s[j - 1]);
            assert(issue_before(x, s[p]));
            if issue_before(s[j - 1], x) {
                lemma_issue_before_transitive(s[j - 1], x, s[p]);
                if j - 1 == p {
                    lemma_issue_before_irreflexive(s[p]);
                } else {
                    assert(!issue_before(s[j - 1], s[p]));
                }
            }
        } else {
            let si = if i < p {
                i
            } else {
                i - 1
            };
            let sj = if j < p {
                j
            } else {
                j - 1
            };
            assert(t[i] == s[si]);
            assert(t[j] == s[sj]);
        }
    }
}

/// The findings of a lint run come out in report order: by path, then line,
/// then column, then rule id.
pub proof fn lemma_sort_in_report_order(s: Seq<IssueModel>)
    ensures
        in_report_order(sort_spec(s)),
    decreases s.len(),
{
    if s.len() > 0 {
        lemma_sort_in_report_order(s.drop_last());
        lemma_insert_keeps_order(sort_spec(s.drop_last()), s.last());
    }
}

/// Sorting neither loses, adds nor duplicates a finding.
pub proof fn lemma_sort_permutes(s: Seq<IssueModel>)
    ensures
        sort_spec(s).to_multiset() == s.to_multiset(),
        sort_spec(s).len() == s.len(),
    decreases s.len(),
{
    if s.len() > 0 {
        let r = sort_spec(s.drop_last());
        lemma_sort_permutes(s.drop_last());
        lemma_insert_pos(r, s.last(), 0);
        vstd::seq_lib::to_multiset_insert(r, insert_pos(r, s.last(), 0), s.last());
        assert(s =~= s.drop_last().push(s.last()));
        s.drop_last().to_multiset_ensures();
    }
}

/// Findings already in report order are left as they are.
pub proof fn lemma_sort_keeps_ordered(s: Seq<IssueModel>)
    requires
        in_report_order(s),
    ensures
        sort_spec(s) == s,
    decreases s.len(),
{
    if s.len() > 0 {
        let d = s.drop_last();
        assert(in_report_order(d));
        lemma_sort_keeps_ordered(d);
        lemma_insert_pos(d, s.last(), 0);
        let p = insert_pos(d, s.last(), 0);
        if p < d.len() {
            assert(issue_before(s.last(), d[p]));
            assert(!issue_before(s[s.len() - 1], s[p]));
        }
        assert(d.insert(d.len() as int, s.last()) =~= s);
    }
}

/// Rule overrides: a rule set to `off` leaves no finding of that rule.
pub proof fn lemma_override_off_removes(
    issues: Seq<IssueModel>,
    overrides: Seq<(Seq<char>, SeverityOverride)>,
    rule: Seq<char>,
    n: int,
)
    requires
        lookup(overrides, rule) == Some(SeverityOverride::Off),
        n <= issues.len(),
    ensures
        forall|k: int|
            0 <= k < apply_overrides_spec(issues, overrides, n).len() ==> (#[trigger] apply_overrides_spec(
                issues,
                overrides,
                n,
            )[k]).rule_id != rule,
    decreases n,
{
    if n > 0 {
        lemma_override_off_removes(issues, overrides, rule, n - 1);
        let prev = apply_overrides_spec(issues, overrides, n - 1);
        let last = override_one(issues[n - 1], lookup(overrides, issues[n - 1].rule_id));
        assert forall|k: int| 0 <= k < (prev + last).len() implies (#[trigger] (prev + last)[k]).rule_id
            != rule by {
            if k >= prev.len() {
                assert(last[k - prev.len()].rule_id == issues[n - 1].rule_id);
            }
        }
    }
}

/// Rule overrides: a rule set to a severity reports every finding of that
/// rule with that severity.
pub proof fn lemma_override_sets_severity(
    issues: Seq<IssueModel>,
    overrides: Seq<(Seq<char>, SeverityOverride)>,
    rule: Seq<char>,
    sev: Severity,
    n: int,
)
    requires
        (sev == Severity::Error && lookup(overrides, rule) == Some(SeverityOverride::Error)) || (sev
            == Severity::Warning && lookup(overrides, rule) == Some(SeverityOverride::Warning)),
        n <= issues.len(),
    ensures
        forall|k: int|
            0 <= k < apply_overrides_spec(issues, overrides, n).len() && (#[trigger] apply_overrides_spec(
                issues,
                overrides,
                n,
            )[k]).rule_id == rule ==> apply_overrides_spec(issues, overrides, n)[k].severity == sev,
    decreases n,
{
    if n > 0 {
        lemma_override_sets_severity(issues, overrides, rule, sev, n - 1);
        let prev = apply_overrides_spec(issues, overrides, n - 1);
        let last = override_one(issues[n - 1], lookup(overrides, issues[n - 1].rule_id));
        assert forall|k: int|
            0 <= k < (prev + last).len() && (#[trigger] (prev + last)[k]).rule_id == rule implies (prev
                + last)[k].severity == sev by {
            if k >= prev.len() {
                assert(last[k - prev.len()].rule_id == issues[n - 1].rule_id);
            }
        }
    }
}

/// Rule overrides: findings of rules without an override pass unchanged, in
/// order; with no overrides at all, every finding passes unchanged.
pub proof fn lemma_no_override_keeps(issues: Seq<IssueModel>, n: int)
    requires
        0 <= n <= issues.len(),
    ensures
        apply_overrides_spec(issues, Seq::empty(), n) == issues.subrange(0, n),
    decreases n,
{
    if n > 0 {
        lemma_no_override_keeps(issues, n - 1);
        assert(issues.subrange(0, n) =~= issues.subrange(0, n - 1).push(issues[n - 1]));
    }
}

/// Every finding has either the error or the warning severity, so the two
/// counts of a run add up to its number of findings.
pub proof fn lemma_counts_add_up(s: Seq<IssueModel>, n: int)
    requires
        0 <= n <= s.len(),
    ensures
        count_severity(s, Severity::Error, n) + count_severity(s, Severity::Warning, n) == n,
    decreases n,
{
    if n > 0 {
        lemma_counts_add_up(s, n - 1);
    }
}

/// The findings of a lint run are in report order, and are exactly the
/// findings of the files with the overrides applied.
/// A rule that the configuration turns off is never reported, whatever the
/// files.
pub proof fn lemma_off_rule_never_reported(fs: Seq<SourceFileModel>, cfg: ConfigModel, rule: Seq<char>)
    requires
        lookup(cfg.overrides, rule) == Some(SeverityOverride::Off),
    ensures
        forall|k: int|
            0 <= k < lint_files_spec(fs, cfg).len() ==> (#[trigger] lint_files_spec(fs, cfg)[k]).rule_id
                != rule,
{
    let raw = raw_issues(fs, fs.len() as int);
    let applied = apply_overrides_spec(raw, cfg.overrides, raw.len() as int);
    let out = lint_files_spec(fs, cfg);
    lemma_override_off_removes(raw, cfg.overrides, rule, raw.len() as int);
    lemma_sort_permutes(applied);
    assert forall|k: int| 0 <= k < out.len() implies (#[trigger] out[k]).rule_id != rule by {
        out.to_multiset_ensures();
        applied.to_multiset_ensures();
        assert(out == sort_spec(applied));
        assert(out.contains(out[k]));
        assert(out.to_multiset().count(out[k]) > 0);
        assert(applied.to_multiset().count(out[k]) > 0);
        assert(applied.contains(out[k]));
        let j = choose|j: int| 0 <= j < applied.len() && applied[j] == out[k];
        assert(applied[j].rule_id != rule);
    }
}

pub proof fn lemma_lint_files_ordered(fs: Seq<SourceFileModel>, cfg: ConfigModel)
    ensures
        in_report_order(lint_files_spec(fs, cfg)),
        lint_files_spec(fs, cfg).to_multiset() == apply_overrides_spec(
            raw_issues(fs, fs.len() as int),
            cfg.overrides,
            raw_issues(fs, fs.len() as int).len() as int,
        ).to_multiset(),
{
    let raw = raw_issues(fs, fs.len() as int);
    let applied = apply_overrides_spec(raw, cfg.overrides, raw.len() as int);
    lemma_sort_in_report_order(applied);
    lemma_sort_permutes(applied);
}

/// Whether a finding names a rule of the catalog and has that rule's
/// default severity.
pub open spec fn catalog_finding(x: IssueModel) -> bool {
    is_known(x.rule_id) && x.severity == default_severity_of(x.rule_id)
}

/// Whether every finding names a rule of the catalog with its default
/// severity.
pub open spec fn all_catalog(s: Seq<IssueModel>) -> bool {
    forall|i: int| 0 <= i < s.len() ==> #[trigger] catalog_finding(s[i])
}

proof fn lemma_catalog_add(a: Seq<IssueModel>, b: Seq<IssueModel>)
    requires
        all_catalog(a),
        all_catalog(b),
    ensures
        all_catalog(a + b),
{
    assert forall|i: int| 0 <= i < (a + b).len() implies #[trigger] catalog_finding((a + b)[i]) by {
        if i < a.len() {
            assert((a + b)[i] == a[i]);
        } else {
            assert((a + b)[i] == b[i - a.len()]);
        }
    }
}

proof fn lemma_catalog_one(
    cond: bool,
    rule: Seq<char>,
    path: Seq<char>,
    line: usize,
    column: usize,
    message: Seq<char>,
)
    requires
        is_known(rule),
    ensures
        all_catalog(one_if(cond, finding(rule, path, line, column, message))),
        all_catalog(seq![finding(rule, path, line, column, message)]),
{
    let x = finding(rule, path, line, column, message);
    assert(catalog_finding(x));
    assert(seq![x][0] == x);
}

proof fn lemma_field_issues_catalog(path: Seq<char>, cname: Seq<char>, fs: Seq<ValveFieldModel>, n: int)
    ensures
        all_catalog(field_issues(path, cname, fs, n)),
    decreases n,
{
    lemma_all_known();
    if n > 0 {
        lemma_field_issues_catalog(path, cname, fs, n - 1);
        lemma_catalog_one(
            is_sensitive_name(fs[n - 1].name) && !fs[n - 1].has_password_type,
            OWUI023@,
            path,
            fs[n - 1].line,
            1,
            masked_field_message(cname, fs[n - 1].name),
        );
        lemma_catalog_add(
            field_issues(path, cname, fs, n - 1),
            one_if(
                is_sensitive_name(fs[n - 1].name) && !fs[n - 1].has_password_type,
                finding(OWUI023@, path, fs[n - 1].line, 1, masked_field_message(cname, fs[n - 1].name)),
            ),
        );
    }
}

proof fn lemma_common_catalog(path: Seq<char>, c: ClassModel)
    ensures
        all_catalog(lint_common_spec(path, c)),
{
    lemma_all_known();
    let valves = inner_class_of(c, "Valves"@);
    let user_valves = inner_class_of(c, "UserValves"@);
    if valves is None && user_valves is None {
        lemma_catalog_one(
            true,
            OWUI020@,
            path,
            c.line,
            c.column,
            c.name + " should define an inner Valves or UserValves class for configuration."@,
        );
    } else {
        lemma_config_catalog(path, c, "Valves"@, valves, true);
        lemma_config_catalog(path, c, "UserValves"@, user_valves, false);
        lemma_catalog_add(
            config_issues(path, c, "Valves"@, valves, true),
            config_issues(path, c, "UserValves"@, user_valves, false),
        );
    }
}

proof fn lemma_config_catalog(
    path: Seq<char>,
    c: ClassModel,
    cname: Seq<char>,
    cfg: Option<NestedClassModel>,
    is_valves: bool,
)
    ensures
        all_catalog(config_issues(path, c, cname, cfg, is_valves)),
{
    lemma_all_known();
    match cfg {
        None => {},
        Some(k) => {
            let a = one_if(
                !has_base_model(k.bases),
                finding(OWUI021@, path, c.line, c.column, cname + " should inherit from pydantic.BaseModel."@),
            );
            let b = one_if(
                is_valves && !c.init_assignments.contains("valves"@),
                finding(
                    OWUI022@,
                    path,
                    c.line,
                    c.column,
                    "Initialize valves in __init__ with self.valves = self.Valves()."@,
                ),
            );
            lemma_catalog_one(
                !has_base_model(k.bases),
                OWUI021@,
                path,
                c.line,
                c.column,
                cname + " should inherit from pydantic.BaseModel."@,
            );
            lemma_catalog_one(
                is_valves && !c.init_assignments.contains("valves"@),
                OWUI022@,
                path,
                c.line,
                c.column,
                "Initialize valves in __init__ with self.valves = self.Valves()."@,
            );
            lemma_field_issues_catalog(path, cname, k.fields, k.fields.len() as int);
            lemma_catalog_add(a, b);
            lemma_catalog_add(a + b, field_issues(path, cname, k.fields, k.fields.len() as int));
        },
    }
}

proof fn lemma_tools_catalog(path: Seq<char>, ms: Seq<FunctionModel>, n: int)
    ensures
        all_catalog(tool_method_issues(path, ms, n)),
    decreases n,
{
    lemma_all_known();
    if n > 0 {
        let m = ms[n - 1];
        lemma_tools_catalog(path, ms, n - 1);
        let a = one_if(
            !m.has_docstring,
            finding(
                OWT101@,
                path,
                m.line,
                m.column,
                "Tool method '"@ + m.name + "' should include a descriptive docstring."@,
            ),
        );
        let b = one_if(
            !m.is_async,
            finding(OWT102@, path, m.line, m.column, "Tool method '"@ + m.name + "' should be async."@),
        );
        lemma_catalog_one(
            !m.has_docstring,
            OWT101@,
            path,
            m.line,
            m.column,
            "Tool method '"@ + m.name + "' should include a descriptive docstring."@,
        );
        lemma_catalog_one(
            !m.is_async,
            OWT102@,
            path,
            m.line,
            m.column,
            "Tool method '"@ + m.name + "' should be async."@,
        );
        lemma_catalog_add(a, b);
        if is_tool_method(m) {
            lemma_catalog_add(tool_method_issues(path, ms, n - 1), a + b);
        } else {
            lemma_catalog_add(tool_method_issues(path, ms, n - 1), Seq::empty());
        }
    }
}

proof fn lemma_kind_catalog(path: Seq<char>, c: ClassModel)
    ensures
        all_catalog(lint_tools_spec(path, c)),
        all_catalog(lint_pipe_spec(path, c)),
        all_catalog(lint_filter_spec(path, c)),
        all_catalog(lint_action_spec(path, c)),
        all_catalog(lint_pipeline_spec(path, c)),
{
    lemma_all_known();
    lemma_tools_catalog(path, c.methods, c.methods.len() as int);
    lemma_catalog_one(true, OWT100@, path, c.line, c.column, "Tools class has no public tool methods."@);
    lemma_catalog_one(true, OWP200@, path, c.line, c.column, "Pipe class must define a 'pipe' method."@);
    lemma_catalog_one(true, OWF300@, path, c.line, c.column, "Filter must define at least one of inlet/outlet/stream."@);
    lemma_catalog_one(true, OWA400@, path, c.line, c.column, "Action class must define an 'action' method."@);
    assert(all_catalog(lint_pipe_spec(path, c))) by {
        match method_of(c, "pipe"@) {
            None => {},
            Some(p) => {
                let cond = method_of(c, "inlet"@) is Some || method_of(c, "outlet"@) is Some;
                let msg1 = "Pipe classes must not define inlet/outlet methods; use Filter instead."@;
                let msg2 = "Pipe.pipe should be async for compatibility with Open WebUI execution."@;
                lemma_catalog_one(cond, OWP201@, path, c.line, c.column, msg1);
                lemma_catalog_one(!p.is_async, OWP202@, path, p.line, p.column, msg2);
                lemma_catalog_add(
                    one_if(cond, finding(OWP201@, path, c.line, c.column, msg1)),
                    one_if(!p.is_async, finding(OWP202@, path, p.line, p.column, msg2)),
                );
            },
        }
    }
    assert(all_catalog(lint_filter_spec(path, c))) by {
        let inlet = method_of(c, "inlet"@);
        let outlet = method_of(c, "outlet"@);
        let stream = method_of(c, "stream"@);
        if !(inlet is None && outlet is None && stream is None) {
            let a = match inlet {
                Some(m) => one_if(
                    !m.returns_body,
                    finding(OWF301@, path, m.line, m.column, "Filter.inlet should return body."@),
                ) + one_if(
                    !has_param(m, "body"@),
                    finding(
                        OWF303@,
                        path,
                        m.line,
                        m.column,
                        "Filter.inlet should accept a `body` parameter."@,
                    ),
                ),
                None => Seq::empty(),
            };
            let b = match outlet {
                Some(m) => one_if(
                    !has_param(m, "body"@),
                    finding(
                        OWF303@,
                        path,
                        m.line,
                        m.column,
                        "Filter.outlet should accept a `body` parameter."@,
                    ),
                ),
                None => Seq::empty(),
            };
            let d = match stream {
                Some(m) => one_if(
                    !has_param(m, "event"@),
                    finding(
                        OWF304@,
                        path,
                        m.line,
                        m.column,
                        "Filter.stream should accept an `event` parameter."@,
                    ),
                ),
                None => Seq::empty(),
            };
            match inlet {
                Some(m) => {
                    lemma_catalog_one(!m.returns_body, OWF301@, path, m.line, m.column, "Filter.inlet should return body."@);
                    lemma_catalog_one(
                        !has_param(m, "body"@),
                        OWF303@,
                        path,
                        m.line,
                        m.column,
                        "Filter.inlet should accept a `body` parameter."@,
                    );
                    lemma_catalog_add(
                        one_if(
                            !m.returns_body,
                            finding(OWF301@, path, m.line, m.column, "Filter.inlet should return body."@),
                        ),
                        one_if(
                            !has_param(m, "body"@),
                            finding(
                                OWF303@,
                                path,
                                m.line,
                                m.column,
                                "Filter.inlet should accept a `body` parameter."@,
                            ),
                        ),
                    );
                },
                None => {},
            }
            match outlet {
                Some(m) => {
                    lemma_catalog_one(
                        !has_param(m, "body"@),
                        OWF303@,
                        path,
                        m.line,
                        m.column,
                        "Filter.outlet should accept a `body` parameter."@,
                    );
                },
                None => {},
            }
            match stream {
                Some(m) => {
                    lemma_catalog_one(
                        !has_param(m, "event"@),
                        OWF304@,
                        path,
                        m.line,
                        m.column,
                        "Filter.stream should accept an `event` parameter."@,
                    );
                },
                None => {},
            }
            lemma_catalog_add(a, b);
            lemma_catalog_add(a + b, d);
        }
    }
    assert(all_catalog(lint_action_spec(path, c))) by {
        match method_of(c, "action"@) {
            None => {},
            Some(a) => {
                let m1 = "Action.action should be async."@;
                let m2 = "Action.action should accept a `body` parameter."@;
                lemma_catalog_one(!a.is_async, OWA401@, path, a.line, a.column, m1);
                lemma_catalog_one(!has_param(a, "body"@), OWA402@, path, a.line, a.column, m2);
                lemma_catalog_add(
                    one_if(!a.is_async, finding(OWA401@, path, a.line, a.column, m1)),
                    one_if(!has_param(a, "body"@), finding(OWA402@, path, a.line, a.column, m2)),
                );
            },
        }
    }
    assert(all_catalog(lint_pipeline_spec(path, c))) by {
        let has_pipe = method_of(c, "pipe"@) is Some;
        let has_pipes = method_of(c, "pipes"@) is Some;
        let has_filter_hook = method_of(c, "inlet"@) is Some || method_of(c, "outlet"@) is Some
            || method_of(c, "stream"@) is Some;
        let m1 =
            "Pipeline class must define 'pipe', 'pipes' (manifold), or at least one filter hook (inlet/outlet/stream)."@;
        let m2 = "Pipeline __init__ should set self.name for clearer model labeling."@;
        let c1 = !has_pipe && !has_pipes && !has_filter_hook;
        let c2 = !c.init_assignments.contains("name"@);
        lemma_catalog_one(c1, OWPL500@, path, c.line, c.column, m1);
        lemma_catalog_one(c2, OWPL501@, path, c.line, c.column, m2);
        lemma_catalog_add(
            one_if(c1, finding(OWPL500@, path, c.line, c.column, m1)),
            one_if(c2, finding(OWPL501@, path, c.line, c.column, m2)),
        );
    }
}

proof fn lemma_extension_class_catalog(path: Seq<char>, c: ClassModel)
    ensures
        all_catalog(lint_extension_class_spec(path, c)),
{
    lemma_common_catalog(path, c);
    lemma_kind_catalog(path, c);
    let k = match extension_kind(c.name) {
        Some(ExtensionKind::Tools) => lint_tools_spec(path, c),
        Some(ExtensionKind::Pipe) => lint_pipe_spec(path, c),
        Some(ExtensionKind::Filter) => lint_filter_spec(path, c),
        Some(ExtensionKind::Action) => lint_action_spec(path, c),
        Some(ExtensionKind::Pipeline) => lint_pipeline_spec(path, c),
        None => Seq::empty(),
    };
    lemma_catalog_add(lint_common_spec(path, c), k);
}

proof fn lemma_class_issues_catalog(path: Seq<char>, cs: Seq<ClassModel>, n: int)
    ensures
        all_catalog(class_issues(path, cs, n)),
    decreases n,
{
    if n > 0 {
        lemma_class_issues_catalog(path, cs, n - 1);
        lemma_extension_class_catalog(path, cs[n - 1]);
        if extension_kind(cs[n - 1].name) is Some {
            lemma_catalog_add(class_issues(path, cs, n - 1), lint_extension_class_spec(path, cs[n - 1]));
        } else {
            lemma_catalog_add(class_issues(path, cs, n - 1), Seq::empty());
        }
    }
}

proof fn lemma_header_catalog(path: Seq<char>, m: ModuleModel)
    ensures
        all_catalog(lint_module_header_spec(path, m)),
{
    lemma_all_known();
    match m.module_docstring {
        None => {},
        Some(d) => {
            let line: usize = match m.module_docstring_line {
                Some(l) => l,
                None => 1,
            };
            let ls = lines(d);
            let h = header_scan(ls, ls.len() as int);
            let m1 = "Module header is missing a `version:` field. Consider adding e.g. `version: 0.1.0`."@;
            let m2 =
                "Module header is missing a `title:` field. Open WebUI uses this as the display name in the UI."@;
            let a = one_if(!h.0, finding(OWUI030@, path, line, 1, m1));
            let b = one_if(!h.1, finding(OWUI032@, path, line, 1, m2));
            lemma_catalog_one(!h.0, OWUI030@, path, line, 1, m1);
            lemma_catalog_one(!h.1, OWUI032@, path, line, 1, m2);
            lemma_catalog_add(a, b);
            match h.2 {
                None => {
                    lemma_catalog_add(a + b, Seq::empty());
                },
                Some(r) => {
                    let u = unpinned(split(r, ','), split(r, ',').len() as int);
                    lemma_catalog_one(u.len() > 0, OWUI031@, path, line, 1, requirements_message(u));
                    lemma_catalog_add(
                        a + b,
                        one_if(u.len() > 0, finding(OWUI031@, path, line, 1, requirements_message(u))),
                    );
                },
            }
        },
    }
}

/// Every finding of a module names a rule of the catalog and carries that
/// rule's default severity, before any configured override.
pub proof fn lemma_module_findings_use_catalog(m: ModuleModel)
    ensures
        all_catalog(lint_module_spec(m)),
{
    lemma_all_known();
    if !m.syntax_ok {
        let line: usize = match m.syntax_error {
            Some(e) => e.line,
            None => 1,
        };
        let column: usize = match m.syntax_error {
            Some(e) => e.column,
            None => 1,
        };
        let message = match m.syntax_error {
            Some(e) => e.message,
            None => "Syntax error"@,
        };
        lemma_catalog_one(true, OWUI001@, m.path, line, column, "Basic Python scan failed: "@ + message);
    } else {
        let header = lint_module_header_spec(m.path, m);
        let ext = extension_classes(m.classes, m.classes.len() as int);
        lemma_header_catalog(m.path, m);
        if ext.len() == 0 {
            let msg = "No Open WebUI extension class found (Tools, Pipe, Filter, Action, Pipeline)."@;
            lemma_catalog_one(looks_like_extension(m.classes), OWUI010@, m.path, 1, 1, msg);
            lemma_catalog_add(
                header,
                one_if(looks_like_extension(m.classes), finding(OWUI010@, m.path, 1, 1, msg)),
            );
        } else {
            let msg = "Mixed extension types in one file are not supported: "@ + join(class_names(ext), ", "@)
                + "."@;
            let mixed = one_if(ext.len() > 1, finding(OWUI011@, m.path, ext[0].line, ext[0].column, msg));
            lemma_catalog_one(ext.len() > 1, OWUI011@, m.path, ext[0].line, ext[0].column, msg);
            lemma_class_issues_catalog(m.path, m.classes, m.classes.len() as int);
            lemma_catalog_add(header, mixed);
            lemma_catalog_add(header + mixed, class_issues(m.path, m.classes, m.classes.len() as int));
        }
    }
}

/// Every finding of a lint run, before overrides, names a rule of the
/// catalog and carries that rule's default severity.
pub proof fn lemma_raw_findings_use_catalog(fs: Seq<SourceFileModel>, n: int)
    ensures
        all_catalog(raw_issues(fs, n)),
    decreases n,
{
    if n > 0 {
        lemma_raw_findings_use_catalog(fs, n - 1);
        lemma_module_findings_use_catalog(module_of(fs[n - 1]));
        lemma_catalog_add(raw_issues(fs, n - 1), lint_module_spec(module_of(fs[n - 1])));
    }
}

/// The findings of `s` that are not of rule `rule`, in order.
pub open spec fn without_rule(s: Seq<IssueModel>, rule: Seq<char>) -> Seq<IssueModel>
    decreases s.len(),
{
    if s.len() == 0 {
        s
    } else {
        without_rule(s.drop_last(), rule) + if s.last().rule_id == rule {
            Seq::<IssueModel>::empty()
        } else {
            seq![s.last()]
        }
    }
}

proof fn lemma_without_concat(a: Seq<IssueModel>, b: Seq<IssueModel>, rule: Seq<char>)
    ensures
        without_rule(a + b, rule) == without_rule(a, rule) + without_rule(b, rule),
    decreases b.len(),
{
    if b.len() == 0 {
        assert(a + b =~= a);
        assert(without_rule(b, rule) =~= Seq::<IssueModel>::empty());
        assert(without_rule(a, rule) + without_rule(b, rule) =~= without_rule(a, rule));
    } else {
        assert((a + b).drop_last() =~= a + b.drop_last());
        assert((a + b).last() == b.last());
        lemma_without_concat(a, b.drop_last(), rule);
        assert(without_rule(a + b, rule) =~= without_rule(a, rule) + without_rule(b, rule));
    }
}

proof fn lemma_without_one(x: IssueModel, rule: Seq<char>)
    ensures
        without_rule(seq![x], rule) == (if x.rule_id == rule {
            Seq::<IssueModel>::empty()
        } else {
            seq![x]
        }),
{
    let e = Seq::<IssueModel>::empty();
    assert(seq![x].drop_last() =~= e);
    assert(without_rule(e, rule) == e);
    assert(seq![x].last() == x);
    if x.rule_id == rule {
        assert(e + e =~= e);
    } else {
        assert(e + seq![x] =~= seq![x]);
    }
}

proof fn lemma_without_from(a: Seq<IssueModel>, rule: Seq<char>)
    ensures
        forall|i: int|
            0 <= i < without_rule(a, rule).len() ==> exists|k: int|
                0 <= k < a.len() && a[k] == #[trigger] without_rule(a, rule)[i],
    decreases a.len(),
{
    if a.len() > 0 {
        lemma_without_from(a.drop_last(), rule);
        let w = without_rule(a.drop_last(), rule);
        assert forall|i: int| 0 <= i < without_rule(a, rule).len() implies exists|k: int|
            0 <= k < a.len() && a[k] == #[trigger] without_rule(a, rule)[i] by {
            if i < w.len() {
                assert(without_rule(a, rule)[i] == w[i]);
                let k2 = choose|k: int| 0 <= k < a.drop_last().len() && a.drop_last()[k] == #[trigger] w[i];
                assert(a[k2] == a.drop_last()[k2]);
            } else {
                assert(without_rule(a, rule)[i] == a.last());
                assert(a[a.len() - 1] == a.last());
            }
        }
    }
}

proof fn lemma_without_kept(s: Seq<IssueModel>, rule: Seq<char>)
    requires
        forall|i: int| 0 <= i < s.len() ==> (#[trigger] s[i]).rule_id != rule,
    ensures
        without_rule(s, rule) == s,
    decreases s.len(),
{
    if s.len() > 0 {
        lemma_without_kept(s.drop_last(), rule);
        assert(s.drop_last().push(s.last()) =~= s);
        assert(without_rule(s, rule) =~= s);
    }
}

/// Findings that compare as neither before nor after each other share
/// path, line, column and rule.
proof fn lemma_issue_order_total(b: IssueModel, c: IssueModel)
    ensures
        issue_before(b, c) || issue_before(c, b) || (same_path(b.path, c.path) && b.line == c.line
            && b.column == c.column && b.rule_id == c.rule_id),
{
    lemma_path_order(b.path, c.path, c.path);
    if b.rule_id != c.rule_id {
        lemma_lex_total(b.rule_id, c.rule_id, 0);
    }
}

/// What a finding sorts before, it sorts before everything that does not
/// sort before that.
proof fn lemma_before_negative(a: IssueModel, b: IssueModel, c: IssueModel)
    requires
        issue_before(a, b),
        !issue_before(c, b),
    ensures
        issue_before(a, c),
{
    lemma_issue_order_total(b, c);
    if issue_before(b, c) {
        lemma_issue_before_transitive(a, b, c);
    }
}

proof fn lemma_insert_pos_at(q: Seq<IssueModel>, x: IssueModel, j: int, m: int)
    requires
        0 <= j <= m <= q.len(),
        forall|k: int| j <= k < m ==> !issue_before(x, #[trigger] q[k]),
        m < q.len() ==> issue_before(x, q[m]),
    ensures
        insert_pos(q, x, j) == m,
    decreases m - j,
{
    if j < m {
        lemma_insert_pos_at(q, x, j + 1, m);
    }
}

proof fn lemma_without_insert(r: Seq<IssueModel>, x: IssueModel, rule: Seq<char>)
    requires
        in_report_order(r),
    ensures
        x.rule_id == rule ==> without_rule(r.insert(insert_pos(r, x, 0), x), rule) == without_rule(
            r,
            rule,
        ),
        x.rule_id != rule ==> without_rule(r.insert(insert_pos(r, x, 0), x), rule) == without_rule(
            r,
            rule,
        ).insert(insert_pos(without_rule(r, rule), x, 0), x),
{
    lemma_insert_pos(r, x, 0);
    let p = insert_pos(r, x, 0);
    let lo = r.subrange(0, p);
    let hi = r.subrange(p, r.len() as int);
    assert(r.insert(p, x) =~= lo + seq![x] + hi);
    assert(r =~= lo + hi);
    lemma_without_concat(lo + seq![x], hi, rule);
    lemma_without_concat(lo, seq![x], rule);
    lemma_without_concat(lo, hi, rule);
    lemma_without_one(x, rule);
    let a = without_rule(lo, rule);
    let b = without_rule(hi, rule);
    if x.rule_id == rule {
        assert(without_rule(seq![x], rule) =~= Seq::<IssueModel>::empty());
        assert(a + Seq::<IssueModel>::empty() =~= a);
    } else {
        assert(without_rule(seq![x], rule) =~= seq![x]);
        let q = a + b;
        lemma_without_from(lo, rule);
        lemma_without_from(hi, rule);
        assert forall|k: int| 0 <= k < a.len() implies !issue_before(x, #[trigger] q[k]) by {
            assert(q[k] == a[k]);
            let i = choose|i: int| 0 <= i < lo.len() && lo[i] == #[trigger] a[k];
            assert(lo[i] == r[i]);
        }
        if a.len() < q.len() {
            assert(q[a.len() as int] == b[0]);
            let i = choose|i: int| 0 <= i < hi.len() && hi[i] == #[trigger] b[0];
            assert(hi[i] == r[p + i]);
            if i > 0 {
                assert(!issue_before(r[p + i], r[p]));
                lemma_before_negative(x, r[p], r[p + i]);
            }
        }
        lemma_insert_pos_at(q, x, 0, a.len() as int);
        assert(q.insert(a.len() as int, x) =~= a + seq![x] + b);
    }
}

/// Sorting the findings other than those of one rule gives the sorted
/// findings without that rule's.
pub proof fn lemma_sort_without(s: Seq<IssueModel>, rule: Seq<char>)
    ensures
        sort_spec(without_rule(s, rule)) == without_rule(sort_spec(s), rule),
    decreases s.len(),
{
    if s.len() > 0 {
        let s0 = s.drop_last();
        let x = s.last();
        lemma_sort_without(s0, rule);
        lemma_sort_in_report_order(s0);
        let r = sort_spec(s0);
        lemma_without_insert(r, x, rule);
        let w0 = without_rule(s0, rule);
        if x.rule_id == rule {
            assert(without_rule(s, rule) =~= w0);
        } else {
            let w = without_rule(s, rule);
            assert(w =~= w0.push(x));
            assert(w.drop_last() =~= w0);
            assert(w.last() == x);
        }
    }
}

proof fn lemma_apply_off(
    raw: Seq<IssueModel>,
    overrides: Seq<(Seq<char>, SeverityOverride)>,
    rule: Seq<char>,
    n: int,
)
    requires
        keys_unique(overrides),
        lookup(overrides, rule) is None,
        n <= raw.len(),
    ensures
        apply_overrides_spec(raw, assoc_insert(overrides, rule, SeverityOverride::Off), n)
            == without_rule(apply_overrides_spec(raw, overrides, n), rule),
    decreases n,
{
    let o2 = assoc_insert(overrides, rule, SeverityOverride::Off);
    if n <= 0 {
        assert(without_rule(Seq::<IssueModel>::empty(), rule) =~= Seq::<IssueModel>::empty());
    } else {
        lemma_apply_off(raw, overrides, rule, n - 1);
        let x = raw[n - 1];
        let prev = apply_overrides_spec(raw, overrides, n - 1);
        let one = override_one(x, lookup(overrides, x.rule_id));
        lemma_without_concat(prev, one, rule);
        lemma_override_last_wins(overrides, rule, SeverityOverride::Off, x.rule_id);
        if x.rule_id == rule {
            assert(one =~= seq![x]);
            lemma_without_one(x, rule);
            assert(override_one(x, lookup(o2, x.rule_id)) =~= Seq::<IssueModel>::empty());
        } else {
            assert(lookup(o2, x.rule_id) == lookup(overrides, x.rule_id));
            assert forall|i: int| 0 <= i < one.len() implies (#[trigger] one[i]).rule_id != rule by {}
            lemma_without_kept(one, rule);
        }
        assert(apply_overrides_spec(raw, o2, n) =~= without_rule(
            apply_overrides_spec(raw, overrides, n),
            rule,
        ));
    }
}

/// Turning off a rule that had no override removes exactly its findings
/// from every report: the other findings stay, unchanged and in the same
/// order.
pub proof fn lemma_off_removes_exactly(fs: Seq<SourceFileModel>, cfg: ConfigModel, rule: Seq<char>)
    requires
        keys_unique(cfg.overrides),
        lookup(cfg.overrides, rule) is None,
    ensures
        lint_files_spec(
            fs,
            ConfigModel { overrides: assoc_insert(cfg.overrides, rule, SeverityOverride::Off), ..cfg },
        ) == without_rule(lint_files_spec(fs, cfg), rule),
{
    let raw = raw_issues(fs, fs.len() as int);
    lemma_apply_off(raw, cfg.overrides, rule, raw.len() as int);
    lemma_sort_without(apply_overrides_spec(raw, cfg.overrides, raw.len() as int), rule);
}

/// A requirement in which the compatible-release operator `~=` stands
/// anywhere carries a version specifier.
pub proof fn lemma_compatible_release_is_pinned(req: Seq<char>, i: int)
    requires
        occurs_at(req, "~="@, i),
    ensures
        has_version_spec(req),
{
    lemma_find_from_bounds(req, "~="@, 0);
}

/// Whether the compatible-release operator `~=` stands in `req`.
pub open spec fn names_compatible_release(req: Seq<char>) -> bool {
    exists|i: int| occurs_at(req, "~="@, i)
}

/// Requirements that each name a version with `~=` leave nothing unpinned,
/// so a header listing only such requirements gets no finding for them.
pub proof fn lemma_compatible_releases_leave_nothing_unpinned(pieces: Seq<Seq<char>>, n: int)
    requires
        n <= pieces.len(),
        forall|k: int| 0 <= k < n ==> names_compatible_release(#[trigger] trim(pieces[k])),
    ensures
        unpinned(pieces, n).len() == 0,
    decreases n,
{
    if n > 0 {
        lemma_compatible_releases_leave_nothing_unpinned(pieces, n - 1);
        let t = trim(pieces[n - 1]);
        assert(names_compatible_release(t));
        let i = choose|i: int| occurs_at(t, "~="@, i);
        lemma_compatible_release_is_pinned(t, i);
    }
}

/// Scanning from `i`, the delimited occurrence of `token` at `m` is found
/// when no earlier occurrence from `i` on runs into it.
proof fn lemma_boundary_reaches(value: Seq<char>, token: Seq<char>, i: int, m: int)
    requires
        0 <= i <= m,
        token.len() > 0,
        occurs_at(value, token, m),
        boundary_ok(value, m, m + token.len()),
        forall|k: int| i <= k < m && occurs_at(value, token, k) ==> k + token.len() <= m,
    ensures
        boundary_match_from(value, token, i),
    decreases m - i,
{
    lemma_find_from_bounds(value, token, i);
    let k = find_from(value, token, i).unwrap();
    if k != m {
        assert(k < m);
        if !boundary_ok(value, k, k + token.len()) {
            lemma_boundary_reaches(value, token, k + token.len(), m);
        }
    }
}

/// A field name in which `password` stands as a word of its own (at an end
/// of the name, or next to a character that is no ASCII letter or digit),
/// and which names no token count or rate, is sensitive: `password`,
/// `db_password`, `password-2`.
pub proof fn lemma_password_names_are_sensitive(p: Seq<char>, s: Seq<char>)
    requires
        p.len() == 0 || !is_ascii_alnum(p.last()),
        s.len() == 0 || !is_ascii_alnum(s[0]),
        !contains(p + "password"@ + s, "token_count"@),
        !contains(p + "password"@ + s, "tokens_per_"@),
        !contains(p + "password"@ + s, "token_per_"@),
        !contains(p + "password"@ + s, "token_rate"@),
        !contains(p + "password"@ + s, "token_usage"@),
    ensures
        is_sensitive_name(p + "password"@ + s),
{
    reveal_strlit("password");
    let w = "password"@;
    let v = p + w + s;
    let m = p.len() as int;
    assert(v.subrange(m, m + 8) =~= w);
    assert(occurs_at(v, w, m));
    if m > 0 {
        assert(v[m - 1] == p.last());
    }
    if s.len() > 0 {
        assert(v[m + 8] == s[0]);
    }
    assert(boundary_ok(v, m, m + 8));
    assert forall|k: int| 0 <= k < m && occurs_at(v, w, k) implies k + w.len() <= m by {
        if k + 8 > m {
            assert(v.subrange(k, k + 8)[m - k] == v[m]);
            assert(v[m] == 'p');
        }
    }
    lemma_boundary_reaches(v, w, 0, m);
}

/// A field of a configuration class whose name holds `password` as a word
/// of its own, and that is not declared with the password input type, gets
/// an OWUI023 finding on its line.
pub proof fn lemma_unmasked_password_field_reported(
    path: Seq<char>,
    cname: Seq<char>,
    fs: Seq<ValveFieldModel>,
    n: int,
    j: int,
    p: Seq<char>,
    s: Seq<char>,
)
    requires
        0 <= j < n <= fs.len(),
        fs[j].name == p + "password"@ + s,
        !fs[j].has_password_type,
        p.len() == 0 || !is_ascii_alnum(p.last()),
        s.len() == 0 || !is_ascii_alnum(s[0]),
        !contains(p + "password"@ + s, "token_count"@),
        !contains(p + "password"@ + s, "tokens_per_"@),
        !contains(p + "password"@ + s, "token_per_"@),
        !contains(p + "password"@ + s, "token_rate"@),
        !contains(p + "password"@ + s, "token_usage"@),
    ensures
        exists|k: int|
            0 <= k < field_issues(path, cname, fs, n).len() && (#[trigger] field_issues(
                path,
                cname,
                fs,
                n,
            )[k]).rule_id == OWUI023@ && field_issues(path, cname, fs, n)[k].line == fs[j].line,
    decreases n,
{
    let prev = field_issues(path, cname, fs, n - 1);
    let all = field_issues(path, cname, fs, n);
    if j == n - 1 {
        lemma_password_names_are_sensitive(p, s);
        assert(all[prev.len() as int].rule_id == OWUI023@);
    } else {
        lemma_unmasked_password_field_reported(path, cname, fs, n - 1, j, p, s);
        let k = choose|k: int|
            0 <= k < prev.len() && (#[trigger] prev[k]).rule_id == OWUI023@ && prev[k].line
                == fs[j].line;
        assert(all[k] == prev[k]);
    }
}

} // verus!

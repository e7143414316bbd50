//! Quick fixes for findings: make a handler async, add a docstring stub,
//! add a missing header field, or disable the rule for the project.

use vstd::prelude::*;
use crate::text::chars_of;
use crate::text::string_of;
use crate::text::slice_copy;
use crate::text::push_str;
use crate::text::push_chars;
use crate::text::views;
use crate::text::lines;
use crate::text::str_lines;
use crate::text::find;
use crate::text::find_chars;
use crate::text::rfind;
use crate::text::rfind_chars;
use crate::text::ends_with;
use crate::text::ends_with_chars;
use crate::text::trim_end;
use crate::text::trim_end_chars;
use crate::text::trim_start_index;
use crate::text::lemma_find_from_bounds;
use crate::text::lemma_rfind_from_bounds;
use crate::text::lines_from;
use crate::text::strip_cr;
use crate::text::is_ws;
use crate::text::trim;
use crate::text::trim_start;
use crate::text::occurs_at;
use crate::text::find_from;
use crate::text::index_of;
use crate::text::lemma_lines_concat;
use crate::text::lemma_lines_from_skip;
use crate::util::without_comment;
use crate::util::comment_neutral;
use crate::util::lemma_no_comment;
use crate::util::indent_width;
use crate::models::SeverityOverride;
use crate::models::ascii_upper;
use crate::models::ascii_lower;
use crate::config::YamlState;
use crate::config::yaml_step;
use crate::config::yaml_from;
use crate::config::config_of;
use crate::config::default_config;
use crate::config::lookup;
use crate::config::assoc_insert;
use crate::config::keys_unique;
use crate::config::unquote;
use crate::config::severity_override_of;
use crate::config::lemma_yaml_concat;
use crate::config::lemma_yaml_keeps_keys_unique;
use crate::config::lemma_override_last_wins;
use crate::analysis::SourceFileModel;
use crate::linter::lint_files_spec;
use crate::linter::lemma_off_rule_never_reported;
use crate::server::position::utf16_units;
use crate::server::position::utf16_units_upto;
use crate::server::completions::docstring_quote;
use crate::server::completions::occurs_twice;
use crate::server::completions::leading_ws;
use crate::server::completions::TRIPLE_DOUBLE;
use crate::server::completions::TRIPLE_SINGLE;

verus! {

/// The command a client runs to disable a rule for the project.
pub const DISABLE_RULE_COMMAND: &'static str = "owui-lint.disableRule";

/// A quick fix: a title and a text inserted at one position (0-indexed
/// line, UTF-16 character).
#[derive(Debug, Clone, PartialEq, Eq)]
pub struct QuickFix {
    pub title: String,
    pub line: u32,
    pub character: u32,
    pub new_text: String,
}

pub struct QuickFixModel {
    pub title: Seq<char>,
    pub line: u32,
    pub character: u32,
    pub new_text: Seq<char>,
}

impl View for QuickFix {
    type V = QuickFixModel;

    open spec fn view(&self) -> QuickFixModel {
        QuickFixModel {
            title: self.title@,
            line: self.line,
            character: self.character,
            new_text: self.new_text@,
        }
    }
}

/// `n` spaces.
pub open spec fn spaces(n: nat) -> Seq<char> {
    Seq::new(n, |i: int| ' ')
}

/// Line `idx` of the lines, if there is one.
pub open spec fn line_opt(ls: Seq<Seq<char>>, idx: int) -> Option<Seq<char>> {
    if 0 <= idx < ls.len() {
        Some(ls[idx])
    } else {
        None
    }
}

/// Inserting `async ` before the `def` of the handler on line `idx`, when
/// that position fits the protocol's 32-bit numbers.
pub open spec fn async_fix_spec(ls: Seq<Seq<char>>, idx: u32) -> Option<QuickFixModel> {
    match line_opt(ls, idx as int) {
        None => None,
        Some(l) => match find(l, "def "@) {
            None => None,
            Some(k) => if utf16_units(l.subrange(0, k)) <= u32::MAX {
                Some(
                    QuickFixModel {
                        title: "Make method async"@,
                        line: idx,
                        character: utf16_units(l.subrange(0, k)) as u32,
                        new_text: "async "@,
                    },
                )
            } else {
                None
            },
        },
    }
}

/// Index of the first line at or after `k` whose text, without trailing
/// whitespace, ends with a colon: the end of a signature.
pub open spec fn signature_end(ls: Seq<Seq<char>>, k: int) -> Option<int>
    decreases ls.len() - k,
{
    if k < 0 || k >= ls.len() {
        None
    } else if ends_with(trim_end(ls[k]), seq![':']) {
        Some(k)
    } else {
        signature_end(ls, k + 1)
    }
}

/// Inserting a docstring stub as the first statement of the method whose
/// signature starts on line `idx`, when the line after the signature fits
/// the protocol's 32-bit numbers.
pub open spec fn docstring_fix_spec(ls: Seq<Seq<char>>, idx: u32) -> Option<QuickFixModel> {
    match signature_end(ls, idx as int) {
        None => None,
        Some(e) => if e + 1 > u32::MAX {
            None
        } else {
            Some(
            QuickFixModel {
                title: "Add docstring stub"@,
                line: (e + 1) as u32,
                character: 0,
                new_text: spaces(leading_ws(ls[idx as int]) + 4)
                    + "\"\"\"TODO: describe what this tool does.\"\"\"\n"@,
            },
        )
        },
    }
}

/// Adding header field `field` to the module docstring opening on line
/// `idx`: before the closing quotes of a one-line docstring, on the next
/// line otherwise; when that position fits the protocol's 32-bit numbers.
pub open spec fn header_field_fix_spec(ls: Seq<Seq<char>>, idx: u32, field: Seq<char>) -> Option<
    QuickFixModel,
> {
    match line_opt(ls, idx as int) {
        None => None,
        Some(op) => match docstring_quote(op) {
            None => None,
            Some(q) => {
                let title = "Add `"@ + field + "` to module header"@;
                if occurs_twice(op, q) {
                    match rfind(op, q) {
                        None => None,
                        Some(c) => if utf16_units(op.subrange(0, c)) > u32::MAX {
                            None
                        } else {
                            let indent = op.subrange(0, leading_ws(op) as int);
                            Some(
                                QuickFixModel {
                                    title,
                                    line: idx,
                                    character: utf16_units(op.subrange(0, c)) as u32,
                                    new_text: "\n"@ + indent + field + "\n"@ + indent,
                                },
                            )
                        },
                    }
                } else if idx + 1 > u32::MAX {
                    None
                } else {
                    Some(
                        QuickFixModel {
                            title,
                            line: (idx + 1) as u32,
                            character: 0,
                            new_text: field + "\n"@,
                        },
                    )
                }
            },
        },
    }
}

/// The quick fix for a finding of rule `rule_id` whose diagnostic starts on
/// line `idx`, if the rule has one.
pub open spec fn fix_for_rule_spec(ls: Seq<Seq<char>>, idx: u32, rule_id: Seq<char>) -> Option<
    QuickFixModel,
> {
    if rule_id == "OWT102"@ || rule_id == "OWP202"@ || rule_id == "OWA401"@ || rule_id
        == "OWE601"@ {
        async_fix_spec(ls, idx)
    } else if rule_id == "OWT101"@ {
        docstring_fix_spec(ls, idx)
    } else if rule_id == "OWUI030"@ {
        header_field_fix_spec(ls, idx, "version: 0.1.0"@)
    } else if rule_id == "OWUI032"@ {
        header_field_fix_spec(ls, idx, "title: My Extension"@)
    } else {
        None
    }
}

fn async_fix(ls: &Vec<Vec<char>>, idx: u32) -> (r: Option<QuickFix>)
    ensures
        r matches Some(f) ==> async_fix_spec(views(ls@), idx) == Some(f@),
        r is None ==> async_fix_spec(views(ls@), idx) is None,
{
    let i = idx as usize;
    if i >= ls.len() {
        return None;
    }
    let l = &ls[i];
    assert(views(ls@)[i as int] == l@);
    let pat = chars_of("def ");
    match find_chars(l.as_slice(), pat.as_slice()) {
        None => None,
        Some(k) => {
            proof {
                lemma_find_from_bounds(l@, pat@, 0);
            }
            match utf16_units_upto(l.as_slice(), k) {
                None => None,
                Some(col) => Some(
                    QuickFix {
                        title: string_of(chars_of("Make method async").as_slice()),
                        line: idx,
                        character: col,
                        new_text: string_of(chars_of("async ").as_slice()),
                    },
                ),
            }
        },
    }
}

fn find_signature_end(ls: &Vec<Vec<char>>, start: usize) -> (r: Option<usize>)
    ensures
        r matches Some(e) ==> e < ls@.len() && signature_end(views(ls@), start as int) == Some(
            e as int,
        ),
        r is None ==> signature_end(views(ls@), start as int) is None,
{
    let ghost lv = views(ls@);
    let colon: Vec<char> = vec![':'];
    assert(colon@ =~= seq![':']);
    let mut e: usize = start;
    while e < ls.len()
        invariant
            lv == views(ls@),
            colon@ == seq![':'],
            start <= e,
            signature_end(lv, start as int) == signature_end(lv, e as int),
        decreases ls.len() - e,
    {
        let t = trim_end_chars(ls[e].as_slice());
        assert(lv[e as int] == ls@[e as int]@);
        if ends_with_chars(t.as_slice(), colon.as_slice()) {
            return Some(e);
        }
        e += 1;
    }
    None
}

fn push_spaces(v: &mut Vec<char>, n: usize)
    ensures
        final(v)@ == old(v)@ + spaces(n as nat),
{
    let mut i: usize = 0;
    while i < n
        invariant
            i <= n,
            v@ == old(v)@ + spaces(i as nat),
        decreases n - i,
    {
        v.push(' ');
        assert(spaces((i + 1) as nat) =~= spaces(i as nat).push(' '));
        i += 1;
    }
}

fn docstring_fix(ls: &Vec<Vec<char>>, idx: u32) -> (r: Option<QuickFix>)
    ensures
        r matches Some(f) ==> docstring_fix_spec(views(ls@), idx) == Some(f@),
        r is None ==> docstring_fix_spec(views(ls@), idx) is None,
{
    let start = idx as usize;
    match find_signature_end(ls, start) {
        None => None,
        Some(e) => {
            proof {
                lemma_signature_end_bounds(views(ls@), start as int);
            }
            if e >= 0xffff_ffff {
                return None;
            }
            let sig = &ls[start];
            assert(views(ls@)[start as int] == sig@);
            let indent = trim_start_index(sig.as_slice());
            let mut text: Vec<char> = Vec::new();
            push_spaces(&mut text, indent);
            push_spaces(&mut text, 4);
            assert(spaces(indent as nat) + spaces(4) =~= spaces(indent as nat + 4));
            push_str(&mut text, "\"\"\"TODO: describe what this tool does.\"\"\"\n");
            Some(
                QuickFix {
                    title: string_of(chars_of("Add docstring stub").as_slice()),
                    line: (e + 1) as u32,
                    character: 0,
                    new_text: string_of(text.as_slice()),
                },
            )
        },
    }
}

proof fn lemma_signature_end_bounds(ls: Seq<Seq<char>>, k: int)
    requires
        0 <= k,
    ensures
        signature_end(ls, k) matches Some(e) ==> k <= e < ls.len(),
    decreases ls.len() - k,
{
    if k < ls.len() && !ends_with(trim_end(ls[k]), seq![':']) {
        lemma_signature_end_bounds(ls, k + 1);
    }
}

fn header_field_fix(ls: &Vec<Vec<char>>, idx: u32, field: &str) -> (r: Option<QuickFix>)
    ensures
        r matches Some(f) ==> header_field_fix_spec(views(ls@), idx, field@) == Some(f@),
        r is None ==> header_field_fix_spec(views(ls@), idx, field@) is None,
{
    let i = idx as usize;
    if i >= ls.len() {
        return None;
    }
    let op = &ls[i];
    assert(views(ls@)[i as int] == op@);
    let d = chars_of(TRIPLE_DOUBLE);
    let sq = chars_of(TRIPLE_SINGLE);
    let q = if crate::text::contains_chars(op.as_slice(), d.as_slice()) {
        d
    } else if crate::text::contains_chars(op.as_slice(), sq.as_slice()) {
        sq
    } else {
        return None;
    };
    let mut title: Vec<char> = Vec::new();
    push_str(&mut title, "Add `");
    push_str(&mut title, field);
    push_str(&mut title, "` to module header");
    let n = op.len();
    let twice = match find_chars(op.as_slice(), q.as_slice()) {
        Some(a) => {
            proof {
                lemma_find_from_bounds(op@, q@, 0);
            }
            crate::text::find_from_chars(op.as_slice(), q.as_slice(), a + q.len()).is_some()
        },
        None => false,
    };
    if twice {
        match rfind_chars(op.as_slice(), q.as_slice()) {
            None => None,
            Some(c) => {
                proof {
                    lemma_rfind_from_bounds(op@, q@, op@.len() - q@.len());
                }
                let col = match utf16_units_upto(op.as_slice(), c) {
                    None => {
                        return None;
                    },
                    Some(u) => u,
                };
                let ind = trim_start_index(op.as_slice());
                let indent = slice_copy(op.as_slice(), 0, ind);
                let mut t: Vec<char> = Vec::new();
                push_str(&mut t, "\n");
                push_chars(&mut t, indent.as_slice());
                push_str(&mut t, field);
                push_str(&mut t, "\n");
                push_chars(&mut t, indent.as_slice());
                Some(
                    QuickFix {
                        title: string_of(title.as_slice()),
                        line: idx,
                        character: col,
                        new_text: string_of(t.as_slice()),
                    },
                )
            },
        }
    } else {
        if idx == 0xffff_ffff {
            return None;
        }
        let mut t: Vec<char> = Vec::new();
        push_str(&mut t, field);
        push_str(&mut t, "\n");
        Some(
            QuickFix {
                title: string_of(title.as_slice()),
                line: idx + 1,
                character: 0,
                new_text: string_of(t.as_slice()),
            },
        )
    }
}

/// The quick fix for a finding of rule `rule_id` whose diagnostic starts on
/// line `idx` of `text`, if the rule has one.
pub fn fix_for_rule(text: &str, idx: u32, rule_id: &str) -> (r: Option<QuickFix>)
    ensures
        r matches Some(f) ==> fix_for_rule_spec(lines(text@), idx, rule_id@) == Some(f@),
        r is None ==> fix_for_rule_spec(lines(text@), idx, rule_id@) is None,
{
    let ls = str_lines(text);
    let rv = chars_of(rule_id);
    let r = rv.as_slice();
    if crate::text::eq_lit(r, "OWT102") || crate::text::eq_lit(r, "OWP202") || crate::text::eq_lit(
        r,
        "OWA401",
    ) || crate::text::eq_lit(r, "OWE601") {
        async_fix(&ls, idx)
    } else if crate::text::eq_lit(r, "OWT101") {
        docstring_fix(&ls, idx)
    } else if crate::text::eq_lit(r, "OWUI030") {
        header_field_fix(&ls, idx, "version: 0.1.0")
    } else if crate::text::eq_lit(r, "OWUI032") {
        header_field_fix(&ls, idx, "title: My Extension")
    } else {
        None
    }
}

/// The title of the action that disables rule `rule_id`.
pub fn disable_rule_title(rule_id: &str) -> (r: String)
    ensures
        r@ == "Disable "@ + rule_id@ + " for this project"@,
{
    let mut v: Vec<char> = Vec::new();
    push_str(&mut v, "Disable ");
    push_str(&mut v, rule_id);
    push_str(&mut v, " for this project");
    string_of(v.as_slice())
}

/// The title of the command that disables rule `rule_id`.
pub fn disable_command_title(rule_id: &str) -> (r: String)
    ensures
        r@ == "Disable "@ + rule_id@,
{
    let mut v: Vec<char> = Vec::new();
    push_str(&mut v, "Disable ");
    push_str(&mut v, rule_id);
    string_of(v.as_slice())
}

/// The configuration files looked for in a workspace, in order of
/// preference; the first one is created when none exists.
pub const CONFIG_FILE_NAMES: [&'static str; 4] = [
    "config.yml",
    "config.yaml",
    "owui-lint.yml",
    "owui-lint.yaml",
];

/// A configuration text with an override that turns rule `rule_id` off
/// appended, on a line of its own.
pub open spec fn with_rule_disabled(content: Seq<char>, rule_id: Seq<char>) -> Seq<char> {
    let base = if content.len() > 0 && content.last() != '\n' {
        content.push('\n')
    } else {
        content
    };
    base + "rules:\n  "@ + rule_id + ": off\n"@
}

/// A configuration text with an override that turns rule `rule_id` off
/// appended, on a line of its own.
pub fn config_with_rule_disabled(content: &str, rule_id: &str) -> (r: String)
    ensures
        r@ == with_rule_disabled(content@, rule_id@),
{
    let mut v = chars_of(content);
    let n = v.len();
    if n > 0 && v[n - 1] != '\n' {
        v.push('\n');
    }
    push_str(&mut v, "rules:\n  ");
    push_str(&mut v, rule_id);
    push_str(&mut v, ": off\n");
    string_of(v.as_slice())
}

/// The rule id of a diagnostic this server published: its code, when its
/// source is the server's.
pub fn owui_rule_id<'a>(source: Option<&str>, code: Option<&'a str>) -> (r: Option<&'a str>)
    ensures
        r == (if source matches Some(s) && s@ == crate::server::diagnostics::DIAGNOSTIC_SOURCE@ {
            code
        } else {
            None
        }),
{
    match source {
        Some(s) => {
            let sv = chars_of(s);
            if crate::text::eq_lit(sv.as_slice(), crate::server::diagnostics::DIAGNOSTIC_SOURCE) {
                code
            } else {
                None
            }
        },
        None => None,
    }
}

/// A diagnostic a client asks actions for: the rule id when the server
/// published it, and the line its range starts on.
#[derive(Debug, Clone, PartialEq, Eq)]
pub struct DiagnosticRef {
    pub rule_id: Option<String>,
    pub line: u32,
}

/// An action offered for the diagnostic at index `diagnostic` of a request.
#[derive(Debug, Clone, PartialEq, Eq)]
pub enum CodeActionRecord {
    Fix { diagnostic: usize, fix: QuickFix },
    Disable { diagnostic: usize, rule_id: String },
}

pub enum CodeActionModel {
    Fix { diagnostic: usize, fix: QuickFixModel },
    Disable { diagnostic: usize, rule_id: Seq<char> },
}

impl View for CodeActionRecord {
    type V = CodeActionModel;

    open spec fn view(&self) -> CodeActionModel {
        match self {
            CodeActionRecord::Fix { diagnostic, fix } => CodeActionModel::Fix {
                diagnostic: *diagnostic,
                fix: fix@,
            },
            CodeActionRecord::Disable { diagnostic, rule_id } => CodeActionModel::Disable {
                diagnostic: *diagnostic,
                rule_id: rule_id@,
            },
        }
    }
}

/// The actions for the first `n` diagnostics: for each diagnostic of this
/// server, its rule's quick fix when there is one, then the action that
/// disables the rule.
pub open spec fn actions_spec(ls: Seq<Seq<char>>, diags: Seq<(Option<Seq<char>>, u32)>, n: int) -> Seq<
    CodeActionModel,
>
    decreases n,
{
    if n <= 0 {
        Seq::empty()
    } else {
        let k = (n - 1) as usize;
        actions_spec(ls, diags, n - 1) + match diags[n - 1].0 {
            None => Seq::empty(),
            Some(rule) => match fix_for_rule_spec(ls, diags[n - 1].1, rule) {
                Some(f) => seq![
                    CodeActionModel::Fix { diagnostic: k, fix: f },
                    CodeActionModel::Disable { diagnostic: k, rule_id: rule },
                ],
                None => seq![CodeActionModel::Disable { diagnostic: k, rule_id: rule }],
            },
        }
    }
}

/// The views of diagnostic references.
pub open spec fn ref_models(v: Seq<DiagnosticRef>) -> Seq<(Option<Seq<char>>, u32)> {
    v.map_values(
        |d: DiagnosticRef|
            (
                match d.rule_id {
                    Some(r) => Some(r@),
                    None => None,
                },
                d.line,
            ),
    )
}

/// The views of actions.
pub open spec fn action_models(v: Seq<CodeActionRecord>) -> Seq<CodeActionModel> {
    v.map_values(|a: CodeActionRecord| a@)
}

/// The actions offered for the given diagnostics of `text`.
pub fn code_actions(text: &str, diags: &[DiagnosticRef]) -> (r: Vec<CodeActionRecord>)
    ensures
        action_models(r@) == actions_spec(lines(text@), ref_models(diags@), diags@.len() as int),
{
    let ghost dv = ref_models(diags@);
    let mut out: Vec<CodeActionRecord> = Vec::new();
    let mut i: usize = 0;
    while i < diags.len()
        invariant
            dv == ref_models(diags@),
            i <= diags@.len(),
            action_models(out@) == actions_spec(lines(text@), dv, i as int),
        decreases diags.len() - i,
    {
        let d = &diags[i];
        assert(dv[i as int] == (
            match d.rule_id {
                Some(r) => Some(r@),
                None => None,
            },
            d.line,
        ));
        let ghost before = action_models(out@);
        match &d.rule_id {
            None => {},
            Some(rule) => {
                match fix_for_rule(text, d.line, rule.as_str()) {
                    Some(f) => {
                        out.push(CodeActionRecord::Fix { diagnostic: i, fix: f });
                    },
                    None => {},
                }
                out.push(
                    CodeActionRecord::Disable {
                        diagnostic: i,
                        rule_id: string_of(chars_of(rule.as_str()).as_slice()),
                    },
                );
            },
        }
        assert(action_models(out@) =~= actions_spec(lines(text@), dv, i + 1));
        i += 1;
    }
    out
}

/// A character of a plain rule ID: an ASCII letter, digit or underscore.
pub open spec fn is_id_char(c: char) -> bool {
    ('A' <= c <= 'Z') || ('a' <= c <= 'z') || ('0' <= c <= '9') || c == '_'
}

/// A non-empty rule ID of plain characters, as every catalog ID is.
pub open spec fn is_plain_id(id: Seq<char>) -> bool {
    id.len() > 0 && forall|i: int| 0 <= i < id.len() ==> is_id_char(#[trigger] id[i])
}

/// The line that opens the overrides section.
pub open spec fn rules_header() -> Seq<char> {
    seq!['r', 'u', 'l', 'e', 's', ':']
}

/// The line that turns rule `id` off.
pub open spec fn off_entry(id: Seq<char>) -> Seq<char> {
    seq![' ', ' '] + id + seq![':', ' ', 'o', 'f', 'f']
}

proof fn lemma_id_char_plain(c: char)
    requires
        is_id_char(c),
    ensures
        !is_ws(c),
        comment_neutral(c),
        c != '\n',
        c != ':',
        c != ' ',
        c != '\t',
        c != '\r',
{
}

proof fn lemma_tail_lines(id: Seq<char>)
    requires
        is_plain_id(id),
    ensures
        lines("rules:\n  "@ + id + ": off\n"@) == seq![rules_header(), off_entry(id)],
{
    reveal_strlit("rules:\n  ");
    reveal_strlit(": off\n");
    let t = "rules:\n  "@ + id + ": off\n"@;
    let m = id.len() as int;
    let n = t.len() as int;
    assert(n == m + 15);
    assert forall|k: int| 9 <= k < 9 + m implies t[k] == id[k - 9] by {}
    assert forall|k: int| 0 <= k < 6 implies t[k] != '\n' by {}
    assert forall|k: int| 7 <= k < n - 1 implies t[k] != '\n' by {
        if 9 <= k < 9 + m {
            lemma_id_char_plain(id[k - 9]);
        }
    }
    lemma_lines_from_skip(t, 0, 0, 6);
    assert(t[6] == '\n');
    lemma_lines_from_skip(t, 7, 7, n - 1);
    assert(t[n - 1] == '\n');
    assert(lines_from(t, n, n) =~= Seq::<Seq<char>>::empty());
    assert(t.subrange(0, 6) =~= rules_header());
    assert(t.subrange(7, n - 1) =~= off_entry(id));
    assert(strip_cr(rules_header()) == rules_header());
    assert(strip_cr(off_entry(id)) == off_entry(id));
    assert(lines(t) =~= seq![rules_header(), off_entry(id)]);
}

proof fn lemma_header_step(st: YamlState)
    ensures
        yaml_step(st, rules_header()) == (YamlState { section: "rules"@, list_key: Seq::empty(), ..st }),
{
    let h = rules_header();
    lemma_no_comment(h, 0);
    assert(without_comment(h) =~= h);
    assert(!is_ws(h[0]));
    assert(!is_ws(h.last()));
    assert(trim_start(h) == h);
    assert(trim_end(h) == h);
    assert(indent_width(h) == 0);
    assert(h.subrange(5, 6) =~= seq![':']);
    let name = h.drop_last();
    assert(!is_ws(name[0]));
    assert(!is_ws(name.last()));
    assert(trim_start(name) == name);
    assert(trim_end(name) == name);
    reveal_strlit("rules");
    assert(name =~= "rules"@);
}

proof fn lemma_entry_step(st: YamlState, id: Seq<char>)
    requires
        st.section == "rules"@,
        is_plain_id(id),
    ensures
        yaml_step(st, off_entry(id)).cfg.overrides == assoc_insert(
            st.cfg.overrides,
            ascii_upper(id),
            SeverityOverride::Off,
        ),
{
    let e = off_entry(id);
    let m = id.len() as int;
    assert forall|k: int| 2 <= k < 2 + m implies e[k] == id[k - 2] by {}
    assert forall|k: int| 0 <= k < e.len() implies comment_neutral(#[trigger] e[k]) by {
        if 2 <= k < 2 + m {
            lemma_id_char_plain(id[k - 2]);
        }
    }
    lemma_no_comment(e, 0);
    assert(without_comment(e) =~= e);
    // The line without its two leading spaces.
    let line = id + seq![':', ' ', 'o', 'f', 'f'];
    lemma_id_char_plain(id[0]);
    assert(e.drop_first().drop_first() =~= line);
    assert(line[0] == id[0]);
    assert(trim_start(line) == line);
    assert(trim_start(e.drop_first()) == trim_start(line));
    assert(trim_start(e) == line);
    assert(!is_ws(line.last()));
    assert(trim_end(line) == line);
    assert(trim(e) == line);
    assert(e.drop_first().drop_first()[0] == id[0]);
    assert(indent_width(e.drop_first().drop_first()) == 0);
    assert(e.drop_first()[0] == ' ');
    assert(indent_width(e.drop_first()) == 1);
    assert(e[0] == ' ');
    assert(indent_width(e) == 2);
    reveal_strlit("lint");
    reveal_strlit("rules");
    assert("rules"@.len() != "lint"@.len());
    assert(st.section != "lint"@);
    // The first colon ends the rule ID.
    assert forall|k: int| 0 <= k < m implies !occurs_at(line, seq![':'], k) by {
        lemma_id_char_plain(id[k]);
        assert(line.subrange(k, k + 1)[0] == id[k]);
    }
    lemma_find_first_colon(line, 0, m);
    assert(index_of(line, ':') == Some(m));
    assert(line.subrange(0, m) =~= id);
    let v = line.subrange(m + 1, line.len() as int);
    assert(v =~= seq![' ', 'o', 'f', 'f']);
    // The rule ID, trimmed and in upper case, and its value, `off`.
    lemma_id_char_plain(id[m - 1]);
    assert(trim_start(id) == id);
    assert(trim_end(id) == id);
    let off = seq!['o', 'f', 'f'];
    assert(v.drop_first() =~= off);
    assert(trim_start(v) == trim_start(off));
    assert(trim_start(off) == off);
    assert(trim_end(off) == off);
    assert(unquote(off) == off);
    assert(ascii_lower(off) =~= off);
    reveal_strlit("error");
    reveal_strlit("warning");
    reveal_strlit("off");
    assert(off =~= "off"@);
    assert(off != "error"@);
    assert(off != "warning"@);
    assert(severity_override_of(unquote(trim(v))) == Some(SeverityOverride::Off));
    assert(ascii_upper(id).len() > 0);
}

proof fn lemma_find_first_colon(line: Seq<char>, i: int, m: int)
    requires
        0 <= i <= m,
        m < line.len(),
        line[m] == ':',
        forall|k: int| i <= k < m ==> !occurs_at(line, seq![':'], k),
    ensures
        find_from(line, seq![':'], i) == Some(m),
    decreases m - i,
{
    if i < m {
        lemma_find_first_colon(line, i + 1, m);
    } else {
        assert(line.subrange(m, m + 1) =~= seq![':']);
    }
}

/// Disabling a rule for the project takes effect: whatever the configuration
/// file held, the configuration read back from its text with the rule's
/// override appended turns that rule off.
pub proof fn lemma_disabled_rule_reads_back_off(content: Seq<char>, rule_id: Seq<char>)
    requires
        is_plain_id(rule_id),
    ensures
        lookup(config_of(with_rule_disabled(content, rule_id)).overrides, ascii_upper(rule_id))
            == Some(SeverityOverride::Off),
{
    let base = if content.len() > 0 && content.last() != '\n' {
        content.push('\n')
    } else {
        content
    };
    let tail = "rules:\n  "@ + rule_id + ": off\n"@;
    assert(with_rule_disabled(content, rule_id) =~= base + tail);
    lemma_lines_concat(base, tail);
    lemma_tail_lines(rule_id);
    let l1 = lines(base);
    let l2 = seq![rules_header(), off_entry(rule_id)];
    let init = YamlState { cfg: default_config(), section: Seq::empty(), list_key: Seq::empty() };
    lemma_yaml_concat(l1, l2, 0, init);
    let st1 = yaml_from(l1, 0, init);
    assert(keys_unique(init.cfg.overrides));
    lemma_yaml_keeps_keys_unique(l1, 0, init);
    lemma_header_step(st1);
    let st2 = yaml_step(st1, rules_header());
    lemma_entry_step(st2, rule_id);
    let st3 = yaml_step(st2, off_entry(rule_id));
    assert(yaml_from(l2, 2, st3) == st3);
    assert(yaml_from(l2, 1, st2) == st3);
    assert(yaml_from(l2, 0, st1) == st3);
    lemma_override_last_wins(st2.cfg.overrides, ascii_upper(rule_id), SeverityOverride::Off, ascii_upper(rule_id));
}

/// Disabling a rule for the project silences it: with the configuration read
/// back after the rule's override is appended, no file's report holds a
/// finding of that rule. (Catalog IDs are in upper case.)
pub proof fn lemma_disabled_rule_not_reported(
    content: Seq<char>,
    rule_id: Seq<char>,
    files: Seq<SourceFileModel>,
)
    requires
        is_plain_id(rule_id),
        ascii_upper(rule_id) == rule_id,
    ensures
        forall|k: int|
            0 <= k < lint_files_spec(files, config_of(with_rule_disabled(content, rule_id))).len()
                ==> (#[trigger] lint_files_spec(
                files,
                config_of(with_rule_disabled(content, rule_id)),
            )[k]).rule_id != rule_id,
{
    lemma_disabled_rule_reads_back_off(content, rule_id);
    lemma_off_rule_never_reported(files, config_of(with_rule_disabled(content, rule_id)), rule_id);
}

proof fn lemma_contains_at(s: Seq<char>, p: Seq<char>, i: int)
    requires
        occurs_at(s, p, i),
    ensures
        crate::text::contains(s, p),
{
    lemma_find_from_bounds(s, p, 0);
}

proof fn lemma_header_fix_holds_field(ls: Seq<Seq<char>>, idx: u32, field: Seq<char>)
    ensures
        header_field_fix_spec(ls, idx, field) matches Some(f) ==> exists|i: int|
            #[trigger] occurs_at(f.new_text, field, i),
{
    if let Some(f) = header_field_fix_spec(ls, idx, field) {
        let op = ls[idx as int];
        let q = docstring_quote(op).unwrap();
        if occurs_twice(op, q) {
            let indent = op.subrange(0, leading_ws(op) as int);
            let t = "\n"@ + indent + field + "\n"@ + indent;
            reveal_strlit("\n");
            let i: int = 1 + indent.len() as int;
            assert(t.subrange(i, i + field.len()) =~= field);
            assert(occurs_at(t, field, i));
            assert(f.new_text == t);
        } else {
            let t = field + "\n"@;
            assert(t.subrange(0, field.len() as int) =~= field);
            assert(occurs_at(t, field, 0));
            assert(f.new_text == t);
        }
    }
}

/// The quick fix for a missing title adds a `title: ` header field, and the
/// one for a missing version a `version: ` field; each is offered exactly
/// where the other is.
pub proof fn lemma_header_fixes_add_their_field(ls: Seq<Seq<char>>, idx: u32)
    ensures
        fix_for_rule_spec(ls, idx, "OWUI032"@) is Some <==> fix_for_rule_spec(ls, idx, "OWUI030"@) is Some,
        fix_for_rule_spec(ls, idx, "OWUI032"@) matches Some(f) ==> crate::text::contains(
            f.new_text,
            "title: "@,
        ),
        fix_for_rule_spec(ls, idx, "OWUI030"@) matches Some(f) ==> crate::text::contains(
            f.new_text,
            "version: "@,
        ),
{
    reveal_strlit("OWT102");
    reveal_strlit("OWP202");
    reveal_strlit("OWA401");
    reveal_strlit("OWE601");
    reveal_strlit("OWT101");
    reveal_strlit("OWUI030");
    reveal_strlit("OWUI032");
    reveal_strlit("title: My Extension");
    reveal_strlit("version: 0.1.0");
    reveal_strlit("title: ");
    reveal_strlit("version: ");
    let title = "title: My Extension"@;
    let version = "version: 0.1.0"@;
    assert("OWUI032"@ != "OWT102"@ && "OWUI032"@ != "OWP202"@ && "OWUI032"@ != "OWA401"@
        && "OWUI032"@ != "OWE601"@ && "OWUI032"@ != "OWT101"@ && "OWUI032"@ != "OWUI030"@) by {
        assert("OWUI032"@.len() != "OWT102"@.len());
        assert("OWUI032"@[6] != "OWUI030"@[6]);
    }
    assert("OWUI030"@ != "OWT102"@ && "OWUI030"@ != "OWP202"@ && "OWUI030"@ != "OWA401"@
        && "OWUI030"@ != "OWE601"@ && "OWUI030"@ != "OWT101"@) by {
        assert("OWUI030"@.len() != "OWT102"@.len());
    }
    lemma_header_fix_holds_field(ls, idx, title);
    lemma_header_fix_holds_field(ls, idx, version);
    if let Some(f) = fix_for_rule_spec(ls, idx, "OWUI032"@) {
        let i = choose|i: int| occurs_at(f.new_text, title, i);
        assert(f.new_text.subrange(i, i + 7) =~= title.subrange(0, 7));
        assert(title.subrange(0, 7) =~= "title: "@);
        assert(f.new_text.subrange(i, i + title.len()).subrange(0, 7) =~= f.new_text.subrange(i, i + 7));
        lemma_contains_at(f.new_text, "title: "@, i);
    }
    if let Some(f) = fix_for_rule_spec(ls, idx, "OWUI030"@) {
        let i = choose|i: int| occurs_at(f.new_text, version, i);
        assert(f.new_text.subrange(i, i + 9) =~= version.subrange(0, 9));
        assert(version.subrange(0, 9) =~= "version: "@);
        assert(f.new_text.subrange(i, i + version.len()).subrange(0, 9) =~= f.new_text.subrange(i, i + 9));
        lemma_contains_at(f.new_text, "version: "@, i);
    }
}

} // verus!

//! Completion snippets for Open WebUI extensions. Which set is offered
//! depends on where the cursor is: inside the module docstring (header
//! fields), on an unindented line (class skeletons) or on an indented line
//! (class members).

use vstd::prelude::*;
use crate::analysis::analyze_source;
use crate::analysis::analyze_spec;
use crate::text::chars_of;
use crate::text::string_of;
use crate::text::push_str;
use crate::text::lines;
use crate::text::str_lines;
use crate::text::views;
use crate::text::contains;
use crate::text::contains_chars;
use crate::text::find;
use crate::text::find_from;
use crate::text::find_chars;
use crate::text::find_from_chars;
use crate::text::trim_start;
use crate::text::trim_start_index;
use crate::text::lemma_find_from_bounds;
use crate::server::diagnostics::one_less;
use crate::server::diagnostics::line_at;

verus! {

/// Three double quotes.
pub const TRIPLE_DOUBLE: &'static str = "\"\"\"";

/// Three single quotes.
pub const TRIPLE_SINGLE: &'static str = "'''";

/// The quote that opens a docstring on `line`, if any.
pub open spec fn docstring_quote(line: Seq<char>) -> Option<Seq<char>> {
    if contains(line, TRIPLE_DOUBLE@) {
        Some(TRIPLE_DOUBLE@)
    } else if contains(line, TRIPLE_SINGLE@) {
        Some(TRIPLE_SINGLE@)
    } else {
        None
    }
}

/// Whether `q` occurs at least twice, without overlap, in `line`.
pub open spec fn occurs_twice(line: Seq<char>, q: Seq<char>) -> bool {
    match find(line, q) {
        Some(i) => find_from(line, q, i + q.len()) is Some,
        None => false,
    }
}

/// Index of the first line at or after `k` that holds `q`.
pub open spec fn closing_line(ls: Seq<Seq<char>>, q: Seq<char>, k: int) -> Option<int>
    decreases ls.len() - k,
{
    if k < 0 || k >= ls.len() {
        None
    } else if contains(ls[k], q) {
        Some(k)
    } else {
        closing_line(ls, q, k + 1)
    }
}

/// Whether 0-indexed line `line_idx` of `source` lies in the module
/// docstring: from its opening line to the line that closes it, or to the
/// end when it is never closed.
pub open spec fn in_docstring_spec(source: Seq<char>, line_idx: int) -> bool {
    match analyze_spec("buffer.py"@, source).module_docstring_line {
        None => false,
        Some(sl) => {
            let start = one_less(sl as nat) as int;
            let ls = lines(source);
            if line_idx < start || start >= ls.len() {
                false
            } else {
                match docstring_quote(ls[start]) {
                    None => false,
                    Some(q) => if occurs_twice(ls[start], q) {
                        line_idx == start
                    } else {
                        match closing_line(ls, q, start + 1) {
                            Some(off) => line_idx <= off,
                            None => true,
                        }
                    },
                }
            }
        },
    }
}

fn docstring_quote_chars(line: &[char]) -> (r: Option<Vec<char>>)
    ensures
        r matches Some(q) ==> docstring_quote(line@) == Some(q@),
        r is None ==> docstring_quote(line@) is None,
{
    let d = chars_of(TRIPLE_DOUBLE);
    if contains_chars(line, d.as_slice()) {
        return Some(d);
    }
    let s = chars_of(TRIPLE_SINGLE);
    if contains_chars(line, s.as_slice()) {
        return Some(s);
    }
    None
}

fn occurs_twice_chars(line: &[char], q: &[char]) -> (r: bool)
    ensures
        r == occurs_twice(line@, q@),
{
    let n = line.len();
    match find_chars(line, q) {
        Some(i) => {
            proof {
                lemma_find_from_bounds(line@, q@, 0);
            }
            find_from_chars(line, q, i + q.len()).is_some()
        },
        None => false,
    }
}

/// Whether 0-indexed line `line_idx` of `source` lies in the module
/// docstring.
#[verifier::loop_isolation(false)]
pub fn in_module_docstring(source: &str, line_idx: usize) -> (r: bool)
    requires
        source@.len() <= usize::MAX / 8,
    ensures
        r == in_docstring_spec(source@, line_idx as int),
{
    let module = analyze_source("buffer.py", source);
    let start_line = match module.module_docstring_line {
        Some(l) => l,
        None => {
            return false;
        },
    };
    let start: usize = if start_line == 0 {
        0
    } else {
        start_line - 1
    };
    let ls = str_lines(source);
    assert(views(ls@) == lines(source@));
    if line_idx < start || start >= ls.len() {
        return false;
    }
    assert(views(ls@)[start as int] == ls@[start as int]@);
    let q = match docstring_quote_chars(ls[start].as_slice()) {
        Some(q) => q,
        None => {
            return false;
        },
    };
    if occurs_twice_chars(ls[start].as_slice(), q.as_slice()) {
        return line_idx == start;
    }
    let ghost lv = views(ls@);
    let mut k: usize = start + 1;
    while k < ls.len()
        invariant
            lv == views(ls@),
            start < k,
            closing_line(lv, q@, start + 1) == closing_line(lv, q@, k as int),
        decreases ls.len() - k,
    {
        assert(lv[k as int] == ls@[k as int]@);
        if contains_chars(ls[k].as_slice(), q.as_slice()) {
            return line_idx <= k;
        }
        k += 1;
    }
    true
}

/// The snippet sets the server offers.
#[derive(Debug, Clone, Copy, PartialEq, Eq, Structural)]
pub enum CompletionSet {
    HeaderFields,
    ClassSkeletons,
    ClassMembers,
}

/// The number of leading whitespace characters of a line.
pub open spec fn leading_ws(s: Seq<char>) -> nat {
    (s.len() - trim_start(s).len()) as nat
}

/// The snippet set for 0-indexed line `line_idx` of `text`: header fields
/// inside the module docstring, class skeletons on an unindented line,
/// class members otherwise.
pub open spec fn completion_set_spec(text: Seq<char>, line_idx: int) -> CompletionSet {
    if in_docstring_spec(text, line_idx) {
        CompletionSet::HeaderFields
    } else if leading_ws(line_at(lines(text), line_idx)) == 0 {
        CompletionSet::ClassSkeletons
    } else {
        CompletionSet::ClassMembers
    }
}

/// The snippet set for 0-indexed line `line_idx` of `text`.
pub fn completion_set(text: &str, line_idx: usize) -> (r: CompletionSet)
    requires
        text@.len() <= usize::MAX / 8,
    ensures
        r == completion_set_spec(text@, line_idx as int),
{
    let ls = str_lines(text);
    let empty: Vec<char> = Vec::new();
    let current: &Vec<char> = if line_idx < ls.len() {
        &ls[line_idx]
    } else {
        &empty
    };
    assert(current@ == line_at(views(ls@), line_idx as int));
    let indent = trim_start_index(current.as_slice());
    if in_module_docstring(text, line_idx) {
        CompletionSet::HeaderFields
    } else if indent == 0 {
        CompletionSet::ClassSkeletons
    } else {
        CompletionSet::ClassMembers
    }
}

/// A completion snippet: its label, a one-line detail and the text it
/// inserts, with `${n:...}` placeholders.
#[derive(Debug, Clone, Copy, PartialEq, Eq)]
pub struct Snippet {
    pub label: &'static str,
    pub detail: &'static str,
    pub body: &'static str,
}

pub struct SnippetModel {
    pub label: Seq<char>,
    pub detail: Seq<char>,
    pub body: Seq<char>,
}

impl View for Snippet {
    type V = SnippetModel;

    open spec fn view(&self) -> SnippetModel {
        SnippetModel { label: self.label@, detail: self.detail@, body: self.body@ }
    }
}

/// The views of some snippets.
pub open spec fn snippet_models(v: Seq<Snippet>) -> Seq<SnippetModel> {
    v.map_values(|x: Snippet| x@)
}

/// The documentation shown for a snippet: its body as a Python code block.
pub open spec fn snippet_markdown_spec(body: Seq<char>) -> Seq<char> {
    "```python\n"@ + body + "\n```"@
}

/// The documentation shown for a snippet: its body as a Python code block.
pub fn snippet_markdown(body: &str) -> (r: String)
    ensures
        r@ == snippet_markdown_spec(body@),
{
    let mut v: Vec<char> = Vec::new();
    push_str(&mut v, "```python\n");
    push_str(&mut v, body);
    push_str(&mut v, "\n```");
    string_of(v.as_slice())
}

pub const VERSION_LABEL: &'static str = "version";
pub const VERSION_DETAIL: &'static str = "Open WebUI header field";
pub const VERSION_BODY: &'static str = "version: ${1:0.1.0}";

pub const TITLE_LABEL: &'static str = "title";
pub const TITLE_DETAIL: &'static str = "Open WebUI header field";
pub const TITLE_BODY: &'static str = "title: ${1:My Extension}";

pub const REQUIREMENTS_LABEL: &'static str = "requirements";
pub const REQUIREMENTS_DETAIL: &'static str = "Open WebUI header field";
pub const REQUIREMENTS_BODY: &'static str = "requirements: ${1:package>=1.0.0}";

pub const AUTHOR_LABEL: &'static str = "author";
pub const AUTHOR_DETAIL: &'static str = "Open WebUI header field";
pub const AUTHOR_BODY: &'static str = "author: ${1:Your Name}";

pub const DESCRIPTION_LABEL: &'static str = "description";
pub const DESCRIPTION_DETAIL: &'static str = "Open WebUI header field";
pub const DESCRIPTION_BODY: &'static str = "description: ${1:What this extension does}";

/// The module-header field snippets.
pub open spec fn header_field_items_spec() -> Seq<SnippetModel> {
    seq![
        SnippetModel { label: VERSION_LABEL@, detail: VERSION_DETAIL@, body: VERSION_BODY@ },
        SnippetModel { label: TITLE_LABEL@, detail: TITLE_DETAIL@, body: TITLE_BODY@ },
        SnippetModel { label: REQUIREMENTS_LABEL@, detail: REQUIREMENTS_DETAIL@, body: REQUIREMENTS_BODY@ },
        SnippetModel { label: AUTHOR_LABEL@, detail: AUTHOR_DETAIL@, body: AUTHOR_BODY@ },
        SnippetModel { label: DESCRIPTION_LABEL@, detail: DESCRIPTION_DETAIL@, body: DESCRIPTION_BODY@ },
    ]
}

/// The module-header field snippets.
pub fn header_field_items() -> (r: Vec<Snippet>)
    ensures
        snippet_models(r@) == header_field_items_spec(),
{
    let r = vec![
        Snippet { label: VERSION_LABEL, detail: VERSION_DETAIL, body: VERSION_BODY },
        Snippet { label: TITLE_LABEL, detail: TITLE_DETAIL, body: TITLE_BODY },
        Snippet { label: REQUIREMENTS_LABEL, detail: REQUIREMENTS_DETAIL, body: REQUIREMENTS_BODY },
        Snippet { label: AUTHOR_LABEL, detail: AUTHOR_DETAIL, body: AUTHOR_BODY },
        Snippet { label: DESCRIPTION_LABEL, detail: DESCRIPTION_DETAIL, body: DESCRIPTION_BODY },
    ];
    assert(snippet_models(r@) =~= header_field_items_spec());
    r
}

pub const OWUI_TOOLS_LABEL: &'static str = "owui-tools";
pub const OWUI_TOOLS_DETAIL: &'static str = "Open WebUI Tools skeleton";
pub const OWUI_TOOLS_BODY: &'static str = "class Tools:\n    class Valves(BaseModel):\n        ${1:api_key}: str = \"\"\n\n    def __init__(self):\n        self.valves = self.Valves()\n\n    async def ${2:do_something}(self, ${3:query}: str) -> str:\n        \"\"\"${4:Describe what this tool does.}\"\"\"\n        return ${5:\"\"}";

pub const OWUI_PIPE_LABEL: &'static str = "owui-pipe";
pub const OWUI_PIPE_DETAIL: &'static str = "Open WebUI Pipe skeleton";
pub const OWUI_PIPE_BODY: &'static str = "class Pipe:\n    class Valves(BaseModel):\n        ${1:model}: str = \"\"\n\n    def __init__(self):\n        self.valves = self.Valves()\n\n    async def pipe(self, body: dict) -> ${2:str}:\n        ${0:return body}";

pub const OWUI_FILTER_LABEL: &'static str = "owui-filter";
pub const OWUI_FILTER_DETAIL: &'static str = "Open WebUI Filter skeleton";
pub const OWUI_FILTER_BODY: &'static str = "class Filter:\n    class Valves(BaseModel):\n        ${1:priority}: int = 0\n\n    def __init__(self):\n        self.valves = self.Valves()\n\n    async def inlet(self, body: dict) -> dict:\n        ${2:return body}\n\n    async def outlet(self, body: dict) -> dict:\n        ${0:return body}";

pub const OWUI_ACTION_LABEL: &'static str = "owui-action";
pub const OWUI_ACTION_DETAIL: &'static str = "Open WebUI Action skeleton";
pub const OWUI_ACTION_BODY: &'static str = "class Action:\n    class Valves(BaseModel):\n        ${1:enabled}: bool = True\n\n    def __init__(self):\n        self.valves = self.Valves()\n\n    async def action(self, body: dict) -> ${2:dict}:\n        ${0:return body}";

pub const OWUI_PIPELINE_LABEL: &'static str = "owui-pipeline";
pub const OWUI_PIPELINE_DETAIL: &'static str = "Open WebUI Pipeline skeleton";
pub const OWUI_PIPELINE_BODY: &'static str = "class Pipeline:\n    def __init__(self):\n        self.name = \"${1:My Pipeline}\"\n\n    async def pipe(self, body: dict) -> ${2:str}:\n        ${0:return body}";

pub const OWUI_EVENT_LABEL: &'static str = "owui-event";
pub const OWUI_EVENT_DETAIL: &'static str = "Open WebUI Event skeleton";
pub const OWUI_EVENT_BODY: &'static str = "class Event:\n    class Valves(BaseModel):\n        ${1:enabled}: bool = True\n\n    def __init__(self):\n        self.valves = self.Valves()\n\n    async def event(self, event: dict, __event_name__: str) -> ${2:None}:\n        ${0:pass}";

/// The extension class skeleton snippets.
pub open spec fn class_skeleton_items_spec() -> Seq<SnippetModel> {
    seq![
        SnippetModel { label: OWUI_TOOLS_LABEL@, detail: OWUI_TOOLS_DETAIL@, body: OWUI_TOOLS_BODY@ },
        SnippetModel { label: OWUI_PIPE_LABEL@, detail: OWUI_PIPE_DETAIL@, body: OWUI_PIPE_BODY@ },
        SnippetModel { label: OWUI_FILTER_LABEL@, detail: OWUI_FILTER_DETAIL@, body: OWUI_FILTER_BODY@ },
        SnippetModel { label: OWUI_ACTION_LABEL@, detail: OWUI_ACTION_DETAIL@, body: OWUI_ACTION_BODY@ },
        SnippetModel { label: OWUI_PIPELINE_LABEL@, detail: OWUI_PIPELINE_DETAIL@, body: OWUI_PIPELINE_BODY@ },
        SnippetModel { label: OWUI_EVENT_LABEL@, detail: OWUI_EVENT_DETAIL@, body: OWUI_EVENT_BODY@ },
    ]
}

/// The extension class skeleton snippets.
pub fn class_skeleton_items() -> (r: Vec<Snippet>)
    ensures
        snippet_models(r@) == class_skeleton_items_spec(),
{
    let r = vec![
        Snippet { label: OWUI_TOOLS_LABEL, detail: OWUI_TOOLS_DETAIL, body: OWUI_TOOLS_BODY },
        Snippet { label: OWUI_PIPE_LABEL, detail: OWUI_PIPE_DETAIL, body: OWUI_PIPE_BODY },
        Snippet { label: OWUI_FILTER_LABEL, detail: OWUI_FILTER_DETAIL, body: OWUI_FILTER_BODY },
        Snippet { label: OWUI_ACTION_LABEL, detail: OWUI_ACTION_DETAIL, body: OWUI_ACTION_BODY },
        Snippet { label: OWUI_PIPELINE_LABEL, detail: OWUI_PIPELINE_DETAIL, body: OWUI_PIPELINE_BODY },
        Snippet { label: OWUI_EVENT_LABEL, detail: OWUI_EVENT_DETAIL, body: OWUI_EVENT_BODY },
    ];
    assert(snippet_models(r@) =~= class_skeleton_items_spec());
    r
}

pub const VALVES_LABEL: &'static str = "Valves";
pub const VALVES_DETAIL: &'static str = "Pydantic configuration class";
pub const VALVES_BODY: &'static str = "class Valves(BaseModel):\n    ${1:api_key}: str = \"\"";

pub const USERVALVES_LABEL: &'static str = "UserValves";
pub const USERVALVES_DETAIL: &'static str = "Per-user Pydantic configuration class";
pub const USERVALVES_BODY: &'static str = "class UserValves(BaseModel):\n    ${1:enabled}: bool = True";

pub const PIPE_METHOD_LABEL: &'static str = "pipe-method";
pub const PIPE_METHOD_DETAIL: &'static str = "Pipe handler method";
pub const PIPE_METHOD_BODY: &'static str = "async def pipe(self, body: dict) -> ${1:str}:\n    ${0:return body}";

pub const INLET_METHOD_LABEL: &'static str = "inlet-method";
pub const INLET_METHOD_DETAIL: &'static str = "Filter inlet method";
pub const INLET_METHOD_BODY: &'static str = "async def inlet(self, body: dict) -> dict:\n    ${0:return body}";

pub const OUTLET_METHOD_LABEL: &'static str = "outlet-method";
pub const OUTLET_METHOD_DETAIL: &'static str = "Filter outlet method";
pub const OUTLET_METHOD_BODY: &'static str = "async def outlet(self, body: dict) -> dict:\n    ${0:return body}";

pub const ACTION_METHOD_LABEL: &'static str = "action-method";
pub const ACTION_METHOD_DETAIL: &'static str = "Action handler method";
pub const ACTION_METHOD_BODY: &'static str = "async def action(self, body: dict) -> ${1:dict}:\n    ${0:return body}";

pub const EVENT_METHOD_LABEL: &'static str = "event-method";
pub const EVENT_METHOD_DETAIL: &'static str = "Event handler method";
pub const EVENT_METHOD_BODY: &'static str = "async def event(self, event: dict, __event_name__: str) -> ${1:None}:\n    ${0:pass}";

/// The class member snippets.
pub open spec fn class_member_items_spec() -> Seq<SnippetModel> {
    seq![
        SnippetModel { label: VALVES_LABEL@, detail: VALVES_DETAIL@, body: VALVES_BODY@ },
        SnippetModel { label: USERVALVES_LABEL@, detail: USERVALVES_DETAIL@, body: USERVALVES_BODY@ },
        SnippetModel { label: PIPE_METHOD_LABEL@, detail: PIPE_METHOD_DETAIL@, body: PIPE_METHOD_BODY@ },
        SnippetModel { label: INLET_METHOD_LABEL@, detail: INLET_METHOD_DETAIL@, body: INLET_METHOD_BODY@ },
        SnippetModel { label: OUTLET_METHOD_LABEL@, detail: OUTLET_METHOD_DETAIL@, body: OUTLET_METHOD_BODY@ },
        SnippetModel { label: ACTION_METHOD_LABEL@, detail: ACTION_METHOD_DETAIL@, body: ACTION_METHOD_BODY@ },
        SnippetModel { label: EVENT_METHOD_LABEL@, detail: EVENT_METHOD_DETAIL@, body: EVENT_METHOD_BODY@ },
    ]
}

/// The class member snippets.
pub fn class_member_items() -> (r: Vec<Snippet>)
    ensures
        snippet_models(r@) == class_member_items_spec(),
{
    let r = vec![
        Snippet { label: VALVES_LABEL, detail: VALVES_DETAIL, body: VALVES_BODY },
        Snippet { label: USERVALVES_LABEL, detail: USERVALVES_DETAIL, body: USERVALVES_BODY },
        Snippet { label: PIPE_METHOD_LABEL, detail: PIPE_METHOD_DETAIL, body: PIPE_METHOD_BODY },
        Snippet { label: INLET_METHOD_LABEL, detail: INLET_METHOD_DETAIL, body: INLET_METHOD_BODY },
        Snippet { label: OUTLET_METHOD_LABEL, detail: OUTLET_METHOD_DETAIL, body: OUTLET_METHOD_BODY },
        Snippet { label: ACTION_METHOD_LABEL, detail: ACTION_METHOD_DETAIL, body: ACTION_METHOD_BODY },
        Snippet { label: EVENT_METHOD_LABEL, detail: EVENT_METHOD_DETAIL, body: EVENT_METHOD_BODY },
    ];
    assert(snippet_models(r@) =~= class_member_items_spec());
    r
}

/// The snippets of a set.
pub open spec fn snippets_of(set: CompletionSet) -> Seq<SnippetModel> {
    match set {
        CompletionSet::HeaderFields => header_field_items_spec(),
        CompletionSet::ClassSkeletons => class_skeleton_items_spec(),
        CompletionSet::ClassMembers => class_member_items_spec(),
    }
}

/// The snippets of a set.
pub fn snippets_for(set: CompletionSet) -> (r: Vec<Snippet>)
    ensures
        snippet_models(r@) == snippets_of(set),
{
    match set {
        CompletionSet::HeaderFields => header_field_items(),
        CompletionSet::ClassSkeletons => class_skeleton_items(),
        CompletionSet::ClassMembers => class_member_items(),
    }
}

} // verus!

//! Line-level recognisers: definitions, imports, docstrings and the few
//! statements the analyzer looks at.

use vstd::prelude::*;
use crate::models::strs;
use crate::text::chars_of;
use crate::text::chars_eq;
use crate::text::slice_copy;
use crate::text::string_of;
use crate::text::string_range;
use crate::text::is_ws;
use crate::text::is_ascii_alpha;
use crate::text::is_ascii_alnum;
use crate::text::is_alpha;
use crate::text::is_alnum;
use crate::text::is_whitespace;
use crate::text::trim;
use crate::text::trim_start;
use crate::text::trim_end;
use crate::text::trim_chars;
use crate::text::trim_start_chars;
use crate::text::trim_end_chars;
use crate::text::starts_with;
use crate::text::ends_with;
use crate::text::starts_with_chars;
use crate::text::ends_with_chars;
use crate::text::index_of;
use crate::text::find_char;
use crate::text::find;
use crate::text::rfind;
use crate::text::find_chars;
use crate::text::rfind_chars;
use crate::text::split;
use crate::text::split_chars;
use crate::text::views;
use crate::text::lines;
use crate::text::first_token;
use crate::text::first_token_chars;
use crate::text::trim_start_char;
use crate::text::trim_start_char_chars;
use crate::text::lemma_find_from_bounds;
use crate::util::without_comment;
use crate::util::strip_comment_chars;
use crate::util::indent;
use crate::util::indent_of;
use crate::text::contains;
use crate::text::contains_chars;
use crate::models::ValveFieldInfo;
use crate::models::ValveFieldModel;

verus! {

/// Whether `s` is an ASCII identifier: a letter or `_`, then letters,
/// digits and `_`.
pub open spec fn is_identifier(s: Seq<char>) -> bool {
    &&& s.len() > 0
    &&& (s[0] == '_' || is_ascii_alpha(s[0]))
    &&& forall|i: int| 1 <= i < s.len() ==> (#[trigger] s[i] == '_' || is_ascii_alnum(s[i]))
}

pub fn is_valid_identifier(s: &[char]) -> (r: bool)
    ensures
        r == is_identifier(s@),
{
    let n = s.len();
    if n == 0 {
        return false;
    }
    if !(s[0] == '_' || is_alpha(s[0])) {
        return false;
    }
    let mut i: usize = 1;
    while i < n
        invariant
            n == s@.len(),
            1 <= i <= n,
            forall|k: int| 1 <= k < i ==> (#[trigger] s@[k] == '_' || is_ascii_alnum(s@[k])),
        decreases n - i,
    {
        if !(s[i] == '_' || is_alnum(s[i])) {
            return false;
        }
        i += 1;
    }
    true
}

/// Whether a (trimmed) line starts a function definition.
pub open spec fn is_function_start_spec(t: Seq<char>) -> bool {
    starts_with(t, "def "@) || starts_with(t, "async def "@)
}

pub fn is_function_start(t: &[char]) -> (r: bool)
    ensures
        r == is_function_start_spec(t@),
{
    starts_with_chars(t, chars_of("def ").as_slice()) || starts_with_chars(
        t,
        chars_of("async def ").as_slice(),
    )
}

/// Whether a (trimmed) line opens a docstring.
pub open spec fn is_docstring_line_spec(t: Seq<char>) -> bool {
    starts_with(t, "\"\"\""@) || starts_with(t, "'''"@)
}

/// A (trimmed) line that begins with three single quotes, or with three
/// double quotes, opens a docstring, whatever follows them.
pub proof fn lemma_triple_quotes_open_docstring(t: Seq<char>)
    requires
        t.len() >= 3,
        (t[0] == '\'' && t[1] == '\'' && t[2] == '\'') || (t[0] == '"' && t[1] == '"' && t[2] == '"'),
    ensures
        is_docstring_line_spec(t),
{
    reveal_strlit("'''");
    reveal_strlit("\"\"\"");
    if t[0] == '\'' {
        assert(t.subrange(0, 3) =~= "'''"@);
    } else {
        assert(t.subrange(0, 3) =~= "\"\"\""@);
    }
}

pub fn is_docstring_line(t: &[char]) -> (r: bool)
    ensures
        r == is_docstring_line_spec(t@),
{
    starts_with_chars(t, chars_of("\"\"\"").as_slice()) || starts_with_chars(
        t,
        chars_of("'''").as_slice(),
    )
}

/// Whether a (trimmed) line is `return body`, comments aside.
pub open spec fn returns_body_spec(t: Seq<char>) -> bool {
    starts_with(t, "return"@) && trim(
        without_comment(t.subrange("return"@.len() as int, t.len() as int)),
    ) == "body"@
}

pub fn returns_body(t: &[char]) -> (r: bool)
    ensures
        r == returns_body_spec(t@),
{
    let kw = chars_of("return");
    if !starts_with_chars(t, kw.as_slice()) {
        return false;
    }
    let rest = slice_copy(t, kw.len(), t.len());
    let code = strip_comment_chars(rest.as_slice());
    let v = trim_chars(code.as_slice());
    chars_eq(v.as_slice(), chars_of("body").as_slice())
}

// ---------------------------------------------------------------------------
// self.<name> = ...
// ---------------------------------------------------------------------------

/// Position of the first character of `s` at or after `i` that cannot be
/// part of an identifier, if any.
pub open spec fn non_ident_pos(s: Seq<char>, i: int) -> Option<int>
    decreases s.len() - i,
{
    if i < 0 || i >= s.len() {
        None
    } else if !(is_ascii_alnum(s[i]) || s[i] == '_') {
        Some(i)
    } else {
        non_ident_pos(s, i + 1)
    }
}

pub proof fn lemma_non_ident_pos(s: Seq<char>, i: int)
    requires
        0 <= i,
    ensures
        non_ident_pos(s, i) matches Some(k) ==> i <= k < s.len(),
    decreases s.len() - i,
{
    if 0 <= i < s.len() && (is_ascii_alnum(s[i]) || s[i] == '_') {
        lemma_non_ident_pos(s, i + 1);
    }
}

/// The attribute a (trimmed) line assigns or annotates on `self`
/// (`self.name = ...` or `self.name: ...`).
pub open spec fn self_assignment_spec(t: Seq<char>) -> Option<Seq<char>> {
    if !starts_with(t, "self."@) {
        None
    } else {
        let rest = t.subrange("self."@.len() as int, t.len() as int);
        match non_ident_pos(rest, 0) {
            None => None,
            Some(e) => {
                let tail = trim_start(rest.subrange(e, rest.len() as int));
                if starts_with(tail, seq!['=']) || starts_with(tail, seq![':']) {
                    Some(rest.subrange(0, e))
                } else {
                    None
                }
            },
        }
    }
}

pub fn self_assignment_name(t: &[char]) -> (r: Option<Vec<char>>)
    ensures
        r matches Some(n) ==> self_assignment_spec(t@) == Some(n@),
        r is None ==> self_assignment_spec(t@) is None,
{
    let kw = chars_of("self.");
    if !starts_with_chars(t, kw.as_slice()) {
        return None;
    }
    let rest = slice_copy(t, kw.len(), t.len());
    let n = rest.len();
    let mut i: usize = 0;
    while i < n && (is_alnum(rest[i]) || rest[i] == '_')
        invariant
            n == rest@.len(),
            i <= n,
            non_ident_pos(rest@, 0) == non_ident_pos(rest@, i as int),
        decreases n - i,
    {
        i += 1;
    }
    if i == n {
        return None;
    }
    let after = slice_copy(rest.as_slice(), i, n);
    let tail = trim_start_chars(after.as_slice());
    let eq: Vec<char> = vec!['='];
    let colon: Vec<char> = vec![':'];
    assert(eq@ =~= seq!['=']);
    assert(colon@ =~= seq![':']);
    if starts_with_chars(tail.as_slice(), eq.as_slice()) || starts_with_chars(
        tail.as_slice(),
        colon.as_slice(),
    ) {
        Some(slice_copy(rest.as_slice(), 0, i))
    } else {
        None
    }
}

// ---------------------------------------------------------------------------
// Imports
// ---------------------------------------------------------------------------

/// The module an `import a, b` line imports first.
pub open spec fn import_spec(t: Seq<char>) -> Option<Seq<char>> {
    if !starts_with(t, "import "@) {
        None
    } else {
        let first = trim(split(t.subrange("import "@.len() as int, t.len() as int), ',')[0]);
        if first.len() == 0 {
            None
        } else {
            first_token(first)
        }
    }
}

pub fn parse_import(t: &[char]) -> (r: Option<String>)
    ensures
        r matches Some(m) ==> import_spec(t@) == Some(m@),
        r is None ==> import_spec(t@) is None,
{
    let kw = chars_of("import ");
    if !starts_with_chars(t, kw.as_slice()) {
        return None;
    }
    let payload = slice_copy(t, kw.len(), t.len());
    let pieces = split_chars(payload.as_slice(), ',');
    assert(pieces@.len() >= 1);
    assert(views(pieces@)[0] == pieces@[0]@);
    let first = trim_chars(pieces[0].as_slice());
    if first.len() == 0 {
        return None;
    }
    match first_token_chars(first.as_slice()) {
        Some(tok) => Some(string_of(tok.as_slice())),
        None => None,
    }
}

/// The module a `from m import ...` line imports from.
pub open spec fn import_from_spec(t: Seq<char>) -> Option<Seq<char>> {
    if !starts_with(t, "from "@) {
        None
    } else {
        first_token(t.subrange("from "@.len() as int, t.len() as int))
    }
}

pub fn parse_import_from(t: &[char]) -> (r: Option<String>)
    ensures
        r matches Some(m) ==> import_from_spec(t@) == Some(m@),
        r is None ==> import_from_spec(t@) is None,
{
    let kw = chars_of("from ");
    if !starts_with_chars(t, kw.as_slice()) {
        return None;
    }
    let payload = slice_copy(t, kw.len(), t.len());
    match first_token_chars(payload.as_slice()) {
        Some(tok) => Some(string_of(tok.as_slice())),
        None => None,
    }
}


// ---------------------------------------------------------------------------
// Function signatures
// ---------------------------------------------------------------------------

/// The balance of round brackets in `s` from position `i` (opening minus
/// closing), brackets inside quoted strings not counted.
pub open spec fn paren_scan(
    s: Seq<char>,
    i: int,
    in_single: bool,
    in_double: bool,
    escaped: bool,
) -> int
    decreases s.len() - i,
{
    if i < 0 || i >= s.len() {
        0
    } else {
        let c = s[i];
        if escaped {
            paren_scan(s, i + 1, in_single, in_double, false)
        } else if in_single {
            if c == '\\' {
                paren_scan(s, i + 1, in_single, in_double, true)
            } else if c == '\'' {
                paren_scan(s, i + 1, false, in_double, false)
            } else {
                paren_scan(s, i + 1, in_single, in_double, false)
            }
        } else if in_double {
            if c == '\\' {
                paren_scan(s, i + 1, in_single, in_double, true)
            } else if c == '"' {
                paren_scan(s, i + 1, in_single, false, false)
            } else {
                paren_scan(s, i + 1, in_single, in_double, false)
            }
        } else if c == '\'' {
            paren_scan(s, i + 1, true, in_double, false)
        } else if c == '"' {
            paren_scan(s, i + 1, in_single, true, false)
        } else if c == '(' {
            1 + paren_scan(s, i + 1, in_single, in_double, false)
        } else if c == ')' {
            paren_scan(s, i + 1, in_single, in_double, false) - 1
        } else {
            paren_scan(s, i + 1, in_single, in_double, false)
        }
    }
}

/// Opening minus closing round brackets of `s`, outside strings.
pub open spec fn paren_balance(s: Seq<char>) -> int {
    paren_scan(s, 0, false, false, false)
}

/// Whether round brackets of `s` (outside strings) balance.
pub fn parens_balanced(s: &[char]) -> (r: bool)
    ensures
        r == (paren_balance(s@) == 0),
{
    let n = s.len();
    let mut opens: usize = 0;
    let mut closes: usize = 0;
    let mut in_single = false;
    let mut in_double = false;
    let mut escaped = false;
    let mut i: usize = 0;
    while i < n
        invariant
            n == s@.len(),
            i <= n,
            opens <= i,
            closes <= i,
            paren_balance(s@) == opens - closes + paren_scan(s@, i as int, in_single, in_double, escaped),
        decreases n - i,
    {
        let c = s[i];
        if escaped {
            escaped = false;
        } else if in_single {
            if c == '\\' {
                escaped = true;
            } else if c == '\'' {
                in_single = false;
            }
        } else if in_double {
            if c == '\\' {
                escaped = true;
            } else if c == '"' {
                in_double = false;
            }
        } else if c == '\'' {
            in_single = true;
        } else if c == '"' {
            in_double = true;
        } else if c == '(' {
            opens += 1;
        } else if c == ')' {
            closes += 1;
        }
        i += 1;
    }
    opens == closes
}

/// Whether a (joined) signature is complete: it ends with `:` and its round
/// brackets balance.
pub open spec fn signature_complete(sig: Seq<char>) -> bool {
    let t = trim_end(sig);
    ends_with(t, seq![':']) && paren_balance(t) == 0
}

pub fn function_signature_complete(sig: &[char]) -> (r: bool)
    ensures
        r == signature_complete(sig@),
{
    let t = trim_end_chars(sig);
    let colon: Vec<char> = vec![':'];
    assert(colon@ =~= seq![':']);
    if !ends_with_chars(t.as_slice(), colon.as_slice()) {
        return false;
    }
    parens_balanced(t.as_slice())
}

/// The code of a line, trimmed and without its comment.
pub open spec fn signature_piece(l: Seq<char>) -> Seq<char> {
    trim(without_comment(trim(l)))
}

/// The signature collected from `consumed` lines starting at `start`, joining
/// further non-empty pieces with a space until it is complete or the lines
/// run out; with the number of lines consumed.
pub open spec fn collect_from(ls: Seq<Seq<char>>, start: int, consumed: int, sig: Seq<char>) -> (
    Seq<char>,
    int,
)
    decreases ls.len() - (start + consumed),
{
    if signature_complete(sig) || start + consumed >= ls.len() || start + consumed < 0 {
        (sig, consumed)
    } else {
        let next = signature_piece(ls[start + consumed]);
        let sig2 = if next.len() > 0 {
            if sig.len() > 0 {
                sig + seq![' '] + next
            } else {
                next
            }
        } else {
            sig
        };
        collect_from(ls, start, consumed + 1, sig2)
    }
}

/// The signature of a definition starting at line `start`, possibly spread
/// over several lines, with the number of lines it takes.
pub open spec fn collect_signature(ls: Seq<Seq<char>>, start: int) -> (Seq<char>, int) {
    collect_from(ls, start, 1, signature_piece(ls[start]))
}

fn signature_piece_exec(l: &[char]) -> (r: Vec<char>)
    ensures
        r@ == signature_piece(l@),
{
    let a = trim_chars(l);
    let b = strip_comment_chars(a.as_slice());
    trim_chars(b.as_slice())
}

fn append_chars(v: &mut Vec<char>, w: &[char])
    ensures
        final(v)@ == old(v)@ + w@,
{
    let mut i: usize = 0;
    let ghost base = v@;
    while i < w.len()
        invariant
            i <= w@.len(),
            v@ == base + w@.subrange(0, i as int),
        decreases w.len() - i,
    {
        v.push(w[i]);
        assert(w@.subrange(0, i + 1) =~= w@.subrange(0, i as int).push(w@[i as int]));
        i += 1;
    }
    assert(w@.subrange(0, i as int) =~= w@);
}

/// The signature of the definition at line `start` and how many lines it
/// spans.
pub fn collect_function_signature(ls: &Vec<Vec<char>>, start: usize) -> (r: (Vec<char>, usize))
    requires
        start < ls@.len(),
    ensures
        (r.0@, r.1 as int) == collect_signature(views(ls@), start as int),
        1 <= r.1,
        start + r.1 <= ls@.len(),
{
    let ghost lv = views(ls@);
    assert(lv[start as int] == ls@[start as int]@);
    let mut sig = signature_piece_exec(ls[start].as_slice());
    let mut consumed: usize = 1;
    let n = ls.len();
    while !function_signature_complete(sig.as_slice()) && start + consumed < n
        invariant
            n == ls@.len(),
            lv == views(ls@),
            start < n,
            1 <= consumed,
            start + consumed <= n,
            collect_signature(lv, start as int) == collect_from(lv, start as int, consumed as int, sig@),
        decreases n - (start + consumed),
    {
        assert(lv[start + consumed] == ls@[start + consumed]@);
        let next = signature_piece_exec(ls[start + consumed].as_slice());
        let ghost before = sig@;
        if next.len() > 0 {
            if sig.len() > 0 {
                sig.push(' ');
                append_chars(&mut sig, next.as_slice());
                assert(sig@ =~= before + seq![' '] + next@);
            } else {
                append_chars(&mut sig, next.as_slice());
                assert(sig@ =~= next@);
            }
        }
        consumed += 1;
    }
    (sig, consumed)
}

/// A function definition as a signature states it.
#[verifier::ext_equal]
pub struct FunctionDefModel {
    pub name: Seq<char>,
    pub args: Seq<Seq<char>>,
    pub is_async: bool,
    pub returns_annotation: bool,
}

/// A parsed function definition.
pub struct FunctionDef {
    pub name: String,
    pub args: Vec<String>,
    pub is_async: bool,
    pub returns_annotation: bool,
}

impl View for FunctionDef {
    type V = FunctionDefModel;

    open spec fn view(&self) -> FunctionDefModel {
        FunctionDefModel {
            name: self.name@,
            args: strs(self.args@),
            is_async: self.is_async,
            returns_annotation: self.returns_annotation,
        }
    }
}

/// The parameter name a parameter declaration gives, if it is one: the text
/// before any default and annotation, without leading `*`s.
pub open spec fn arg_name(piece: Seq<char>) -> Option<Seq<char>> {
    let token = trim(piece);
    let without_default = trim(split(token, '=')[0]);
    let without_type = trim(split(without_default, ':')[0]);
    let normalized = trim(trim_start_char(without_type, '*'));
    if token.len() > 0 && is_identifier(normalized) {
        Some(normalized)
    } else {
        None
    }
}

/// The parameter names of the first `k` comma-separated pieces.
pub open spec fn args_upto(pieces: Seq<Seq<char>>, k: int) -> Seq<Seq<char>>
    decreases k,
{
    if k <= 0 || k > pieces.len() {
        Seq::empty()
    } else {
        match arg_name(pieces[k - 1]) {
            Some(a) => args_upto(pieces, k - 1).push(a),
            None => args_upto(pieces, k - 1),
        }
    }
}

/// The parameter names a parameter list declares, in order.
pub open spec fn args_spec(raw: Seq<char>) -> Seq<Seq<char>> {
    args_upto(split(raw, ','), split(raw, ',').len() as int)
}

fn arg_name_exec(piece: &[char]) -> (r: Option<Vec<char>>)
    ensures
        r matches Some(a) ==> arg_name(piece@) == Some(a@),
        r is None ==> arg_name(piece@) is None,
{
    let token = trim_chars(piece);
    if token.len() == 0 {
        return None;
    }
    let p1 = split_chars(token.as_slice(), '=');
    assert(views(p1@)[0] == p1@[0]@);
    let without_default = trim_chars(p1[0].as_slice());
    let p2 = split_chars(without_default.as_slice(), ':');
    assert(views(p2@)[0] == p2@[0]@);
    let without_type = trim_chars(p2[0].as_slice());
    let stars = trim_start_char_chars(without_type.as_slice(), '*');
    let normalized = trim_chars(stars.as_slice());
    if is_valid_identifier(normalized.as_slice()) {
        Some(normalized)
    } else {
        None
    }
}

/// The parameter names of a parameter list.
pub fn parse_args(raw: &[char]) -> (r: Vec<String>)
    ensures
        strs(r@) == args_spec(raw@),
{
    let pieces = split_chars(raw, ',');
    let ghost pv = views(pieces@);
    let mut args: Vec<String> = Vec::new();
    let mut i: usize = 0;
    while i < pieces.len()
        invariant
            pv == views(pieces@),
            pv == split(raw@, ','),
            i <= pieces@.len(),
            strs(args@) == args_upto(pv, i as int),
        decreases pieces.len() - i,
    {
        assert(pv[i as int] == pieces@[i as int]@);
        match arg_name_exec(pieces[i].as_slice()) {
            Some(a) => {
                let ghost before = args@;
                args.push(string_of(a.as_slice()));
                assert(strs(args@) =~= strs(before).push(a@));
            },
            None => {},
        }
        i += 1;
    }
    args
}

/// The function a (joined, trimmed) signature defines, if it is a valid
/// definition: `[async ]def name(params)[ -> ...]:`.
pub open spec fn function_def_spec(t: Seq<char>) -> Option<FunctionDefModel> {
    let is_async = starts_with(t, "async def "@);
    if !is_async && !starts_with(t, "def "@) {
        None
    } else {
        let payload = if is_async {
            t.subrange("async def "@.len() as int, t.len() as int)
        } else {
            t.subrange("def "@.len() as int, t.len() as int)
        };
        match index_of(payload, '(') {
            None => None,
            Some(open) => {
                let name = trim(payload.subrange(0, open));
                if !is_identifier(name) {
                    None
                } else {
                    match rfind(payload, seq![')']) {
                        None => None,
                        Some(close) => if close <= open {
                            None
                        } else {
                            Some(
                                FunctionDefModel {
                                    name,
                                    args: args_spec(payload.subrange(open + 1, close)),
                                    is_async,
                                    returns_annotation: starts_with(
                                        trim(payload.subrange(close + 1, payload.len() as int)),
                                        "->"@,
                                    ),
                                },
                            )
                        },
                    }
                }
            },
        }
    }
}

pub fn parse_function_definition(t: &[char]) -> (r: Option<FunctionDef>)
    ensures
        r matches Some(d) ==> function_def_spec(t@) == Some(d@),
        r is None ==> function_def_spec(t@) is None,
{
    let akw = chars_of("async def ");
    let kw = chars_of("def ");
    let is_async = starts_with_chars(t, akw.as_slice());
    if !is_async && !starts_with_chars(t, kw.as_slice()) {
        return None;
    }
    let payload = if is_async {
        slice_copy(t, akw.len(), t.len())
    } else {
        slice_copy(t, kw.len(), t.len())
    };
    let open = match find_char(payload.as_slice(), '(') {
        Some(o) => o,
        None => {
            return None;
        },
    };
    proof {
        lemma_find_from_bounds(payload@, seq!['('], 0);
    }
    let name_raw = slice_copy(payload.as_slice(), 0, open);
    let name = trim_chars(name_raw.as_slice());
    if !is_valid_identifier(name.as_slice()) {
        return None;
    }
    let rp: Vec<char> = vec![')'];
    assert(rp@ =~= seq![')']);
    let close = match rfind_chars(payload.as_slice(), rp.as_slice()) {
        Some(c) => c,
        None => {
            return None;
        },
    };
    proof {
        crate::text::lemma_rfind_from_bounds(payload@, seq![')'], payload@.len() - 1);
    }
    if close <= open {
        return None;
    }
    let raw = slice_copy(payload.as_slice(), open + 1, close);
    let args = parse_args(raw.as_slice());
    let tail_raw = slice_copy(payload.as_slice(), close + 1, payload.len());
    let tail = trim_chars(tail_raw.as_slice());
    let returns_annotation = starts_with_chars(tail.as_slice(), chars_of("->").as_slice());
    Some(FunctionDef { name: string_of(name.as_slice()), args, is_async, returns_annotation })
}

// ---------------------------------------------------------------------------
// Class definitions
// ---------------------------------------------------------------------------

/// Position of the first `(`, `:` or whitespace of `s` at or after `i`, or
/// the length of `s`.
pub open spec fn class_name_end(s: Seq<char>, i: int) -> int
    decreases s.len() - i,
{
    if i < 0 || i >= s.len() {
        s.len() as int
    } else if s[i] == '(' || s[i] == ':' || is_ws(s[i]) {
        i
    } else {
        class_name_end(s, i + 1)
    }
}

/// The non-empty trimmed pieces among the first `k`.
pub open spec fn bases_upto(pieces: Seq<Seq<char>>, k: int) -> Seq<Seq<char>>
    decreases k,
{
    if k <= 0 || k > pieces.len() {
        Seq::empty()
    } else if trim(pieces[k - 1]).len() > 0 {
        bases_upto(pieces, k - 1).push(trim(pieces[k - 1]))
    } else {
        bases_upto(pieces, k - 1)
    }
}

/// The base classes a base list names, in order.
pub open spec fn bases_spec(raw: Seq<char>) -> Seq<Seq<char>> {
    bases_upto(split(raw, ','), split(raw, ',').len() as int)
}

/// The class a (trimmed) line defines, with its bases: `class Name(...)`.
pub open spec fn class_def_spec(t: Seq<char>) -> Option<(Seq<char>, Seq<Seq<char>>)> {
    if !starts_with(t, "class "@) {
        None
    } else {
        let payload = t.subrange("class "@.len() as int, t.len() as int);
        let name = trim(payload.subrange(0, class_name_end(payload, 0)));
        if !is_identifier(name) {
            None
        } else {
            let bases = match (index_of(payload, '('), rfind(payload, seq![')'])) {
                (Some(open), Some(close)) => if close > open {
                    bases_spec(payload.subrange(open + 1, close))
                } else {
                    Seq::empty()
                },
                _ => Seq::empty(),
            };
            Some((name, bases))
        }
    }
}

fn parse_bases(raw: &[char]) -> (r: Vec<String>)
    ensures
        strs(r@) == bases_spec(raw@),
{
    let pieces = split_chars(raw, ',');
    let ghost pv = views(pieces@);
    let mut bases: Vec<String> = Vec::new();
    let mut i: usize = 0;
    while i < pieces.len()
        invariant
            pv == views(pieces@),
            pv == split(raw@, ','),
            i <= pieces@.len(),
            strs(bases@) == bases_upto(pv, i as int),
        decreases pieces.len() - i,
    {
        assert(pv[i as int] == pieces@[i as int]@);
        let b = trim_chars(pieces[i].as_slice());
        if b.len() > 0 {
            let ghost before = bases@;
            bases.push(string_of(b.as_slice()));
            assert(strs(bases@) =~= strs(before).push(b@));
        }
        i += 1;
    }
    bases
}

pub fn parse_class_definition(t: &[char]) -> (r: Option<(String, Vec<String>)>)
    ensures
        r matches Some((n, b)) ==> class_def_spec(t@) == Some((n@, strs(b@))),
        r is None ==> class_def_spec(t@) is None,
{
    let kw = chars_of("class ");
    if !starts_with_chars(t, kw.as_slice()) {
        return None;
    }
    let payload = slice_copy(t, kw.len(), t.len());
    let n = payload.len();
    let mut e: usize = 0;
    while e < n && !(payload[e] == '(' || payload[e] == ':' || is_whitespace(payload[e]))
        invariant
            n == payload@.len(),
            e <= n,
            class_name_end(payload@, 0) == class_name_end(payload@, e as int),
        decreases n - e,
    {
        e += 1;
    }
    let name_raw = slice_copy(payload.as_slice(), 0, e);
    let name = trim_chars(name_raw.as_slice());
    if !is_valid_identifier(name.as_slice()) {
        return None;
    }
    let rp: Vec<char> = vec![')'];
    assert(rp@ =~= seq![')']);
    let open = find_char(payload.as_slice(), '(');
    let close = rfind_chars(payload.as_slice(), rp.as_slice());
    let bases = match (open, close) {
        (Some(o), Some(c)) => {
            proof {
                lemma_find_from_bounds(payload@, seq!['('], 0);
                crate::text::lemma_rfind_from_bounds(payload@, seq![')'], payload@.len() - 1);
            }
            if c > o {
                let raw = slice_copy(payload.as_slice(), o + 1, c);
                parse_bases(raw.as_slice())
            } else {
                let v: Vec<String> = Vec::new();
                assert(strs(v@) =~= Seq::<Seq<char>>::empty());
                v
            }
        },
        _ => {
            let v: Vec<String> = Vec::new();
            assert(strs(v@) =~= Seq::<Seq<char>>::empty());
            v
        },
    };
    Some((string_of(name.as_slice()), bases))
}

// ---------------------------------------------------------------------------
// Module docstring
// ---------------------------------------------------------------------------

/// Position of the first line at or after `i` that holds code (is neither
/// blank nor a comment), or the number of lines.
pub open spec fn first_code_line(ls: Seq<Seq<char>>, i: int) -> int
    decreases ls.len() - i,
{
    if i < 0 || i >= ls.len() {
        ls.len() as int
    } else if trim(ls[i]).len() > 0 && !starts_with(trim(ls[i]), seq!['#']) {
        i
    } else {
        first_code_line(ls, i + 1)
    }
}

/// The rest of a multi-line docstring from line `j` on, accumulated onto
/// `content`; `None` when the closing quotes never come.
pub open spec fn docstring_rest(ls: Seq<Seq<char>>, quote: Seq<char>, j: int, content: Seq<char>) -> Option<
    Seq<char>,
>
    decreases ls.len() - j,
{
    if j < 0 || j >= ls.len() {
        None
    } else {
        match find(ls[j], quote) {
            Some(p) => Some(content + seq!['\n'] + trim_end(ls[j].subrange(0, p))),
            None => docstring_rest(ls, quote, j + 1, content + seq!['\n'] + ls[j]),
        }
    }
}

/// The triple quote that opens a (trimmed) line, if any.
pub open spec fn opening_quote(first: Seq<char>) -> Option<Seq<char>> {
    if starts_with(first, "\"\"\""@) {
        Some("\"\"\""@)
    } else if starts_with(first, "'''"@) {
        Some("'''"@)
    } else {
        None
    }
}

/// The module docstring (the text between its triple quotes, inner lines
/// kept as they are, the closing line right-trimmed) and the line (from 1)
/// where it opens, over the lines of a module: it must be its first code.
pub open spec fn module_docstring_spec_lines(ls: Seq<Seq<char>>) -> Option<(Seq<char>, int)> {
    let i = first_code_line(ls, 0);
    if i < 0 || i >= ls.len() {
        None
    } else {
        let first = trim(ls[i]);
        match opening_quote(first) {
            None => None,
            Some(quote) => {
                let after_open = first.subrange(quote.len() as int, first.len() as int);
                match find(after_open, quote) {
                    Some(p) => Some((after_open.subrange(0, p), i + 1)),
                    None => match docstring_rest(ls, quote, i + 1, after_open) {
                        Some(c) => Some((c, i + 1)),
                        None => None,
                    },
                }
            },
        }
    }
}

/// The module docstring and the line where it opens, over the lines `ls`.
pub fn extract_module_docstring(ls: &Vec<Vec<char>>) -> (r: Option<(String, usize)>)
    requires
        ls@.len() < usize::MAX,
    ensures
        r matches Some((d, l)) ==> module_docstring_spec_lines(views(ls@)) == Some((d@, l as int)),
        r is None ==> module_docstring_spec_lines(views(ls@)) is None,
{
    let ghost lv = views(ls@);
    let n = ls.len();
    let mut i: usize = 0;
    loop
        invariant
            n == ls@.len(),
            n < usize::MAX,
            lv == views(ls@),
            i <= n,
            first_code_line(lv, 0) == first_code_line(lv, i as int),
        ensures
            i < n,
            first_code_line(lv, 0) == i,
        decreases n - i,
    {
        if i >= n {
            return None;
        }
        assert(lv[i as int] == ls@[i as int]@);
        let t = trim_chars(ls[i].as_slice());
        let hash: Vec<char> = vec!['#'];
        assert(hash@ =~= seq!['#']);
        if t.len() > 0 && !starts_with_chars(t.as_slice(), hash.as_slice()) {
            break;
        }
        i += 1;
    }
    assert(lv[i as int] == ls@[i as int]@);
    let first = trim_chars(ls[i].as_slice());
    let dq = chars_of("\"\"\"");
    let sq = chars_of("'''");
    let quote = if starts_with_chars(first.as_slice(), dq.as_slice()) {
        dq
    } else if starts_with_chars(first.as_slice(), sq.as_slice()) {
        sq
    } else {
        return None;
    };
    let start_line = i + 1;
    let after_open = slice_copy(first.as_slice(), quote.len(), first.len());
    match find_chars(after_open.as_slice(), quote.as_slice()) {
        Some(p) => {
            proof {
                lemma_find_from_bounds(after_open@, quote@, 0);
            }
            return Some((string_range(after_open.as_slice(), 0, p), start_line));
        },
        None => {},
    }
    assert(opening_quote(first@) == Some(quote@));
    let mut content = after_open;
    let mut j: usize = i + 1;
    while j < n
        invariant
            start_line == i + 1,
            module_docstring_spec_lines(lv) == (match docstring_rest(lv, quote@, i + 1, after_open@) {
                Some(c) => Some((c, i + 1)),
                None => None,
            }),
            n == ls@.len(),
            lv == views(ls@),
            i + 1 <= j <= n,
            docstring_rest(lv, quote@, i + 1, after_open@) == docstring_rest(lv, quote@, j as int, content@),
        decreases n - j,
    {
        assert(lv[j as int] == ls@[j as int]@);
        let line = &ls[j];
        match find_chars(line.as_slice(), quote.as_slice()) {
            Some(p) => {
                proof {
                    lemma_find_from_bounds(line@, quote@, 0);
                }
                let head = slice_copy(line.as_slice(), 0, p);
                let head_t = trim_end_chars(head.as_slice());
                let ghost before = content@;
                content.push('\n');
                append_chars(&mut content, head_t.as_slice());
                assert(content@ =~= before + seq!['\n'] + head_t@);
                return Some((string_of(content.as_slice()), start_line));
            },
            None => {
                let ghost before = content@;
                content.push('\n');
                append_chars(&mut content, line.as_slice());
                assert(content@ =~= before + seq!['\n'] + line@);
            },
        }
        j += 1;
    }
    None
}

// ---------------------------------------------------------------------------
// Valves fields
// ---------------------------------------------------------------------------

/// Whether a line holds code: it is neither blank nor only a comment.
pub open spec fn is_code(l: Seq<char>) -> bool {
    trim(l).len() > 0 && !starts_with(trim(l), seq!['#'])
}

/// Position of the first code line at or after `j` indented at most `ind`
/// (the end of the block that contains line `j - 1`), or the number of lines.
pub open spec fn block_end(ls: Seq<Seq<char>>, j: int, ind: usize) -> int
    decreases ls.len() - j,
{
    if j < 0 || j >= ls.len() {
        ls.len() as int
    } else if is_code(ls[j]) && indent(ls[j]) <= ind {
        j
    } else {
        block_end(ls, j + 1, ind)
    }
}

/// The field a (class-body) line declares: `name: type ...`.
pub open spec fn field_name(l: Seq<char>) -> Option<Seq<char>> {
    let t = trim(l);
    match non_ident_pos(t, 0) {
        None => None,
        Some(k) => {
            let name = t.subrange(0, k);
            if is_identifier(name) && starts_with(trim_start(t.subrange(k, t.len() as int)), seq![':']) {
                Some(name)
            } else {
                None
            }
        },
    }
}

/// Whether a line names the `password` input type as a string literal.
pub open spec fn mentions_password(l: Seq<char>) -> bool {
    contains(l, "\"password\""@) || contains(l, "'password'"@)
}

/// Whether one of the lines `ls[a..b]` names the `password` input type.
pub open spec fn password_in(ls: Seq<Seq<char>>, a: int, b: int) -> bool
    decreases b - a,
{
    if a < 0 || a >= b || a >= ls.len() {
        false
    } else {
        mentions_password(ls[a]) || password_in(ls, a + 1, b)
    }
}

/// The fields declared by the lines `ls[start..k]` at body indentation `bi`;
/// a field's declaration runs until the next code line indented at most `bi`.
pub open spec fn fields_upto(ls: Seq<Seq<char>>, start: int, k: int, bi: usize) -> Seq<ValveFieldModel>
    decreases k - start,
{
    if k <= start {
        Seq::empty()
    } else {
        let j = k - 1;
        let prev = fields_upto(ls, start, j, bi);
        if 0 <= j < ls.len() && is_code(ls[j]) && indent(ls[j]) == bi && field_name(ls[j]) is Some {
            prev.push(
                ValveFieldModel {
                    name: field_name(ls[j])->0,
                    line: (j + 1) as usize,
                    has_password_type: password_in(ls, j, block_end(ls, j + 1, bi)),
                },
            )
        } else {
            prev
        }
    }
}

/// The fields of the class defined at line index `ci`: the field
/// declarations at the indentation of its first body statement.
pub open spec fn valve_fields_spec(ls: Seq<Seq<char>>, ci: int) -> Seq<ValveFieldModel> {
    if ci < 0 || ci >= ls.len() {
        Seq::empty()
    } else {
        let end = block_end(ls, ci + 1, indent(ls[ci]));
        let first = first_code_line(ls, ci + 1);
        if first >= end || first >= ls.len() {
            Seq::empty()
        } else {
            fields_upto(ls, ci + 1, end, indent(ls[first]))
        }
    }
}

fn is_code_exec(l: &[char]) -> (r: bool)
    ensures
        r == is_code(l@),
{
    let t = trim_chars(l);
    let hash: Vec<char> = vec!['#'];
    assert(hash@ =~= seq!['#']);
    t.len() > 0 && !starts_with_chars(t.as_slice(), hash.as_slice())
}

fn block_end_exec(ls: &Vec<Vec<char>>, j: usize, ind: usize) -> (r: usize)
    requires
        j <= ls@.len(),
    ensures
        r == block_end(views(ls@), j as int, ind),
        j <= r <= ls@.len(),
{
    let ghost lv = views(ls@);
    let n = ls.len();
    let mut k = j;
    while k < n
        invariant
            n == ls@.len(),
            lv == views(ls@),
            j <= k <= n,
            block_end(lv, j as int, ind) == block_end(lv, k as int, ind),
        decreases n - k,
    {
        assert(lv[k as int] == ls@[k as int]@);
        if is_code_exec(ls[k].as_slice()) && indent_of(ls[k].as_slice()) <= ind {
            return k;
        }
        k += 1;
    }
    k
}

fn first_code_line_exec(ls: &Vec<Vec<char>>, j: usize) -> (r: usize)
    requires
        j <= ls@.len(),
    ensures
        r == first_code_line(views(ls@), j as int),
        j <= r <= ls@.len(),
{
    let ghost lv = views(ls@);
    let n = ls.len();
    let mut k = j;
    while k < n
        invariant
            n == ls@.len(),
            lv == views(ls@),
            j <= k <= n,
            first_code_line(lv, j as int) == first_code_line(lv, k as int),
        decreases n - k,
    {
        assert(lv[k as int] == ls@[k as int]@);
        if is_code_exec(ls[k].as_slice()) {
            return k;
        }
        k += 1;
    }
    k
}

fn field_name_exec(l: &[char]) -> (r: Option<Vec<char>>)
    ensures
        r matches Some(n) ==> field_name(l@) == Some(n@),
        r is None ==> field_name(l@) is None,
{
    let t = trim_chars(l);
    let n = t.len();
    let mut k: usize = 0;
    while k < n && (is_alnum(t[k]) || t[k] == '_')
        invariant
            n == t@.len(),
            k <= n,
            non_ident_pos(t@, 0) == non_ident_pos(t@, k as int),
        decreases n - k,
    {
        k += 1;
    }
    if k == n {
        return None;
    }
    let name = slice_copy(t.as_slice(), 0, k);
    let rest = slice_copy(t.as_slice(), k, n);
    let rest_t = trim_start_chars(rest.as_slice());
    let colon: Vec<char> = vec![':'];
    assert(colon@ =~= seq![':']);
    if is_valid_identifier(name.as_slice()) && starts_with_chars(rest_t.as_slice(), colon.as_slice()) {
        Some(name)
    } else {
        None
    }
}

fn password_in_exec(ls: &Vec<Vec<char>>, a: usize, b: usize) -> (r: bool)
    requires
        a <= b <= ls@.len(),
    ensures
        r == password_in(views(ls@), a as int, b as int),
{
    let ghost lv = views(ls@);
    let dq = chars_of("\"password\"");
    let sq = chars_of("'password'");
    let mut k = a;
    while k < b
        invariant
            lv == views(ls@),
            lv.len() == ls@.len(),
            dq@ == "\"password\""@,
            sq@ == "'password'"@,
            a <= k <= b <= ls@.len(),
            password_in(lv, a as int, b as int) == password_in(lv, k as int, b as int),
        decreases b - k,
    {
        assert(lv[k as int] == ls@[k as int]@);
        if contains_chars(ls[k].as_slice(), dq.as_slice()) || contains_chars(ls[k].as_slice(), sq.as_slice()) {
            return true;
        }
        k += 1;
    }
    false
}

/// The fields declared in the body of the class defined at line index `ci`.
pub fn parse_valve_fields(ls: &Vec<Vec<char>>, ci: usize) -> (r: Vec<ValveFieldInfo>)
    requires
        ls@.len() < usize::MAX,
    ensures
        r@.map_values(|f: ValveFieldInfo| f@) == valve_fields_spec(views(ls@), ci as int),
{
    let ghost lv = views(ls@);
    let mut out: Vec<ValveFieldInfo> = Vec::new();
    if ci >= ls.len() {
        assert(out@.map_values(|f: ValveFieldInfo| f@) =~= Seq::<ValveFieldModel>::empty());
        return out;
    }
    assert(lv[ci as int] == ls@[ci as int]@);
    let class_indent = indent_of(ls[ci].as_slice());
    let end = block_end_exec(ls, ci + 1, class_indent);
    let first = first_code_line_exec(ls, ci + 1);
    if first >= end || first >= ls.len() {
        assert(out@.map_values(|f: ValveFieldInfo| f@) =~= Seq::<ValveFieldModel>::empty());
        return out;
    }
    assert(lv[first as int] == ls@[first as int]@);
    let bi = indent_of(ls[first].as_slice());
    let mut j = ci + 1;
    assert(out@.map_values(|f: ValveFieldInfo| f@) =~= fields_upto(lv, ci + 1, j as int, bi));
    while j < end
        invariant
            lv == views(ls@),
            ls@.len() < usize::MAX,
            ci + 1 <= j <= end <= ls@.len(),
            out@.map_values(|f: ValveFieldInfo| f@) == fields_upto(lv, ci + 1, j as int, bi),
        decreases end - j,
    {
        assert(lv[j as int] == ls@[j as int]@);
        if is_code_exec(ls[j].as_slice()) && indent_of(ls[j].as_slice()) == bi {
            match field_name_exec(ls[j].as_slice()) {
                Some(name) => {
                    let span_end = block_end_exec(ls, j + 1, bi);
                    let has = password_in_exec(ls, j, span_end);
                    let ghost before = out@;
                    out.push(ValveFieldInfo { name: string_of(name.as_slice()), line: j + 1, has_password_type: has });
                    assert(out@.map_values(|f: ValveFieldInfo| f@) =~= before.map_values(|f: ValveFieldInfo| f@).push(out@[before.len() as int]@));
                },
                None => {},
            }
        }
        j += 1;
    }
    out
}

} // verus!

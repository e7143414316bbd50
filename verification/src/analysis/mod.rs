//! Structure-only analysis of Python extension modules: a line-oriented scan
//! that collects imports, top-level functions and classes, their methods and
//! nested classes, and what `__init__` assigns on `self`.

pub mod syntax;
pub mod parsing;

use vstd::prelude::*;
use crate::models::ModuleInfo;
use crate::models::ModuleModel;
use crate::models::ClassInfo;
use crate::models::ClassModel;
use crate::models::FunctionInfo;
use crate::models::FunctionModel;
use crate::models::NestedClassInfo;
use crate::models::NestedClassModel;
use crate::models::contains_string;
use crate::text::string_of;
use parsing::is_docstring_line;
use parsing::is_docstring_line_spec;
use parsing::returns_body_spec;
use parsing::self_assignment_spec;
use parsing::class_def_spec;
use parsing::function_def_spec;
use parsing::FunctionDefModel;
use parsing::collect_signature;
use parsing::collect_from;
use parsing::signature_complete;
use parsing::signature_piece;
use parsing::import_spec;
use parsing::import_from_spec;
use parsing::is_function_start_spec;
use parsing::module_docstring_spec_lines;
use parsing::valve_fields_spec;
use parsing::parse_class_definition;
use parsing::parse_function_definition;
use parsing::collect_function_signature;
use parsing::returns_body;
use parsing::self_assignment_name;
use crate::models::ValveFieldModel;
use crate::text::views;
use crate::text::chars_of;
use crate::text::chars_eq;
use crate::text::trim_chars;
use crate::text::lines_of;
use crate::text::starts_with_chars;
use crate::util::indent_of;
use crate::models::SyntaxErrorInfo;
use crate::models::SyntaxErrorModel;
use parsing::extract_module_docstring;
use parsing::parse_valve_fields;
use parsing::parse_import;
use parsing::parse_import_from;
use parsing::is_function_start;
use syntax::detect_syntax_error;
use syntax::syntax_error_of;
use crate::text::lines;
use crate::text::trim;
use crate::text::starts_with;
use crate::util::indent;

verus! {

/// Where the multi-line string state of the scan stands after a line: the
/// quote character of an open triple-quoted string, if any. Scans `s` from
/// position `i` with the given single-line quoting state.
pub open spec fn multiline_scan(
    s: Seq<char>,
    i: int,
    escaped: bool,
    in_single: bool,
    in_double: bool,
    ml: Option<char>,
) -> Option<char>
    decreases s.len() - i,
{
    if i < 0 || i >= s.len() {
        ml
    } else {
        let ch = s[i];
        let triple_here = |q: char| i + 2 < s.len() && s[i + 1] == q && s[i + 2] == q;
        if escaped {
            multiline_scan(s, i + 1, false, in_single, in_double, ml)
        } else if ch == '\\' {
            multiline_scan(s, i + 1, true, in_single, in_double, ml)
        } else if ml is Some {
            if ch == ml->0 && triple_here(ch) {
                multiline_scan(s, i + 3, false, in_single, in_double, None)
            } else {
                multiline_scan(s, i + 1, false, in_single, in_double, ml)
            }
        } else if !in_single && !in_double && (ch == '"' || ch == '\'') && triple_here(ch) {
            multiline_scan(s, i + 3, false, in_single, in_double, Some(ch))
        } else if !in_single && !in_double && ch == '#' {
            ml
        } else if ch == '\'' && !in_double {
            multiline_scan(s, i + 1, false, !in_single, in_double, ml)
        } else if ch == '"' && !in_single {
            multiline_scan(s, i + 1, false, in_single, !in_double, ml)
        } else {
            multiline_scan(s, i + 1, false, in_single, in_double, ml)
        }
    }
}

/// The multi-line string state after line `raw`, starting in state `ml`.
pub open spec fn multiline_after(raw: Seq<char>, ml: Option<char>) -> Option<char> {
    multiline_scan(raw, 0, false, false, false, ml)
}

pub fn update_multiline_state(raw: &[char], ml: Option<char>) -> (r: Option<char>)
    ensures
        r == multiline_after(raw@, ml),
{
    let n = raw.len();
    let mut i: usize = 0;
    let mut escaped = false;
    let mut in_single = false;
    let mut in_double = false;
    let mut state = ml;
    while i < n
        invariant
            n == raw@.len(),
            i <= n,
            multiline_after(raw@, ml) == multiline_scan(raw@, i as int, escaped, in_single, in_double, state),
        decreases n - i,
    {
        let ch = raw[i];
        let triple_here = n - i > 2 && raw[i + 1] == ch && raw[i + 2] == ch;
        if escaped {
            escaped = false;
            i += 1;
            continue;
        }
        if ch == '\\' {
            escaped = true;
            i += 1;
            continue;
        }
        match state {
            Some(q) => {
                if ch == q && triple_here {
                    state = None;
                    i += 3;
                } else {
                    i += 1;
                }
                continue;
            },
            None => {},
        }
        if !in_single && !in_double && (ch == '"' || ch == '\'') && triple_here {
            state = Some(ch);
            i += 3;
            continue;
        }
        if !in_single && !in_double && ch == '#' {
            return state;
        }
        if ch == '\'' && !in_double {
            in_single = !in_single;
        } else if ch == '"' && !in_single {
            in_double = !in_double;
        }
        i += 1;
    }
    state
}


/// What a function context records its body into.
#[derive(Debug, Clone, Copy, PartialEq, Eq, Structural)]
pub enum FunctionTarget {
    /// A top-level function, by index.
    Module(usize),
    /// A method of a top-level class, by class and method index.
    Method { class_index: usize, method_index: usize },
    /// A function whose body is not recorded (nested deeper).
    Ignore,
}

/// An open `class` block.
#[derive(Debug, Clone, Copy, PartialEq, Eq, Structural)]
pub struct ClassContext {
    pub indent: usize,
    /// The top-level class it is, if it is one.
    pub class_index: Option<usize>,
    pub first_stmt_seen: bool,
}

/// An open `def` block.
#[derive(Debug, Clone, Copy, PartialEq, Eq, Structural)]
pub struct FunctionContext {
    pub indent: usize,
    pub target: FunctionTarget,
    /// The top-level class the function belongs to, directly or not.
    pub class_index: Option<usize>,
    pub is_init_method: bool,
    pub first_stmt_seen: bool,
}

/// An open block.
#[derive(Debug, Clone, Copy, PartialEq, Eq, Structural)]
pub enum Context {
    Class(ClassContext),
    Function(FunctionContext),
}

pub open spec fn ctx_indent(c: Context) -> usize {
    match c {
        Context::Class(k) => k.indent,
        Context::Function(f) => f.indent,
    }
}

/// The open blocks that stay open at a line of indentation `indent`.
pub open spec fn pop_contexts(cs: Seq<Context>, indent: usize) -> Seq<Context>
    decreases cs.len(),
{
    if cs.len() > 0 && indent <= ctx_indent(cs.last()) {
        pop_contexts(cs.drop_last(), indent)
    } else {
        cs
    }
}

/// The innermost top-level class that encloses the open blocks.
pub open spec fn top_level_class(cs: Seq<Context>) -> Option<usize>
    decreases cs.len(),
{
    if cs.len() == 0 {
        None
    } else {
        let k = match cs.last() {
            Context::Class(c) => c.class_index,
            Context::Function(f) => f.class_index,
        };
        if k is Some {
            k
        } else {
            top_level_class(cs.drop_last())
        }
    }
}

/// The top-level class whose body is the innermost open block, if it is one.
pub open spec fn direct_parent_class(cs: Seq<Context>) -> Option<usize> {
    if cs.len() > 0 {
        match cs.last() {
            Context::Class(c) => c.class_index,
            Context::Function(_) => None,
        }
    } else {
        None
    }
}

/// Whether every index the open blocks hold points into the module.
pub open spec fn contexts_wf(m: ModuleModel, cs: Seq<Context>) -> bool {
    forall|k: int|
        0 <= k < cs.len() ==> match #[trigger] cs[k] {
            Context::Class(c) => c.class_index matches Some(ci) ==> ci < m.classes.len(),
            Context::Function(f) => {
                &&& f.class_index matches Some(ci) ==> ci < m.classes.len()
                &&& match f.target {
                    FunctionTarget::Module(fi) => fi < m.functions.len(),
                    FunctionTarget::Method { class_index, method_index } => class_index
                        < m.classes.len() && method_index < m.classes[class_index as int].methods.len(),
                    FunctionTarget::Ignore => true,
                }
            },
        }
}

pub fn direct_parent_class_index(cs: &Vec<Context>) -> (r: Option<usize>)
    ensures
        r == direct_parent_class(cs@),
{
    if cs.len() > 0 {
        match cs[cs.len() - 1] {
            Context::Class(c) => c.class_index,
            Context::Function(_) => None,
        }
    } else {
        None
    }
}

pub fn current_top_level_class_index(cs: &Vec<Context>) -> (r: Option<usize>)
    ensures
        r == top_level_class(cs@),
{
    let mut k: usize = cs.len();
    assert(cs@.subrange(0, k as int) =~= cs@);
    while k > 0
        invariant
            k <= cs@.len(),
            top_level_class(cs@) == top_level_class(cs@.subrange(0, k as int)),
        decreases k,
    {
        let idx = match cs[k - 1] {
            Context::Class(c) => c.class_index,
            Context::Function(f) => f.class_index,
        };
        assert(cs@.subrange(0, k as int).last() == cs@[k - 1]);
        if idx.is_some() {
            return idx;
        }
        assert(cs@.subrange(0, k as int).drop_last() =~= cs@.subrange(0, k - 1));
        k -= 1;
    }
    assert(cs@.subrange(0, 0) =~= Seq::<Context>::empty());
    None
}

/// The module with the docstring flag of `target` set to `b`.
pub open spec fn set_doc(m: ModuleModel, target: FunctionTarget, b: bool) -> ModuleModel {
    match target {
        FunctionTarget::Module(i) => ModuleModel {
            functions: m.functions.update(i as int, FunctionModel { has_docstring: b, ..m.functions[i as int] }),
            ..m
        },
        FunctionTarget::Method { class_index: c, method_index: k } => ModuleModel {
            classes: m.classes.update(
                c as int,
                ClassModel {
                    methods: m.classes[c as int].methods.update(
                        k as int,
                        FunctionModel { has_docstring: b, ..m.classes[c as int].methods[k as int] },
                    ),
                    ..m.classes[c as int]
                },
            ),
            ..m
        },
        FunctionTarget::Ignore => m,
    }
}

/// The module with `target` marked as returning `body`.
pub open spec fn set_returns(m: ModuleModel, target: FunctionTarget) -> ModuleModel {
    match target {
        FunctionTarget::Module(i) => ModuleModel {
            functions: m.functions.update(i as int, FunctionModel { returns_body: true, ..m.functions[i as int] }),
            ..m
        },
        FunctionTarget::Method { class_index: c, method_index: k } => ModuleModel {
            classes: m.classes.update(
                c as int,
                ClassModel {
                    methods: m.classes[c as int].methods.update(
                        k as int,
                        FunctionModel { returns_body: true, ..m.classes[c as int].methods[k as int] },
                    ),
                    ..m.classes[c as int]
                },
            ),
            ..m
        },
        FunctionTarget::Ignore => m,
    }
}

/// `names` with `name` added unless it is there already.
pub open spec fn set_insert(names: Seq<Seq<char>>, name: Seq<char>) -> Seq<Seq<char>> {
    if names.contains(name) {
        names
    } else {
        names.push(name)
    }
}

/// The module with `name` recorded as assigned in the `__init__` of class `c`.
pub open spec fn add_init_assignment(m: ModuleModel, c: usize, name: Seq<char>) -> ModuleModel {
    ModuleModel {
        classes: m.classes.update(
            c as int,
            ClassModel {
                init_assignments: set_insert(m.classes[c as int].init_assignments, name),
                ..m.classes[c as int]
            },
        ),
        ..m
    }
}

fn set_function_docstring(module: &mut ModuleInfo, target: FunctionTarget, trimmed: &[char])
    requires
        match target {
            FunctionTarget::Module(i) => i < old(module)@.functions.len(),
            FunctionTarget::Method { class_index: c, method_index: k } => c < old(module)@.classes.len()
                && k < old(module)@.classes[c as int].methods.len(),
            FunctionTarget::Ignore => true,
        },
    ensures
        final(module)@ == set_doc(old(module)@, target, is_docstring_line_spec(trimmed@)),
{
    let has = is_docstring_line(trimmed);
    let ghost m0 = module@;
    match target {
        FunctionTarget::Module(i) => {
            module.functions[i].has_docstring = has;
            assert(module@.functions =~= set_doc(m0, target, has).functions);
        },
        FunctionTarget::Method { class_index: c, method_index: k } => {
            module.classes[c].methods[k].has_docstring = has;
            assert(module@.classes[c as int].methods =~= set_doc(m0, target, has).classes[c as int].methods);
            assert(module@.classes =~= set_doc(m0, target, has).classes);
        },
        FunctionTarget::Ignore => {},
    }
}

fn set_function_returns_body(module: &mut ModuleInfo, target: FunctionTarget)
    requires
        match target {
            FunctionTarget::Module(i) => i < old(module)@.functions.len(),
            FunctionTarget::Method { class_index: c, method_index: k } => c < old(module)@.classes.len()
                && k < old(module)@.classes[c as int].methods.len(),
            FunctionTarget::Ignore => true,
        },
    ensures
        final(module)@ == set_returns(old(module)@, target),
{
    let ghost m0 = module@;
    match target {
        FunctionTarget::Module(i) => {
            module.functions[i].returns_body = true;
            assert(module@.functions =~= set_returns(m0, target).functions);
        },
        FunctionTarget::Method { class_index: c, method_index: k } => {
            module.classes[c].methods[k].returns_body = true;
            assert(module@.classes[c as int].methods =~= set_returns(m0, target).classes[c as int].methods);
            assert(module@.classes =~= set_returns(m0, target).classes);
        },
        FunctionTarget::Ignore => {},
    }
}

fn add_init_assignment_exec(module: &mut ModuleInfo, c: usize, name: &[char])
    requires
        c < old(module)@.classes.len(),
    ensures
        final(module)@ == add_init_assignment(old(module)@, c, name@),
{
    let ghost m0 = module@;
    let present = contains_string(&module.classes[c].init_assignments, name);
    proof {
        let names = m0.classes[c as int].init_assignments;
        if present {
            let i = choose|i: int| 0 <= i < module.classes@[c as int].init_assignments@.len()
                && #[trigger] module.classes@[c as int].init_assignments@[i]@ == name@;
            assert(names[i] == name@);
            assert(names.contains(name@));
        } else {
            assert forall|i: int| 0 <= i < names.len() implies names[i] != name@ by {
                assert(names[i] == module.classes@[c as int].init_assignments@[i]@);
            }
            assert(!names.contains(name@));
        }
    }
    if !present {
        module.classes[c].init_assignments.push(string_of(name));
        assert(module@.classes[c as int].init_assignments =~= m0.classes[c as int].init_assignments.push(name@));
        assert(module@.classes =~= add_init_assignment(m0, c, name@).classes);
    } else {
        assert(module@.classes =~= add_init_assignment(m0, c, name@).classes);
    }
}

/// The module with the docstring flag of top-level class `c` set to `b`.
pub open spec fn set_class_doc(m: ModuleModel, c: usize, b: bool) -> ModuleModel {
    ModuleModel {
        classes: m.classes.update(c as int, ClassModel { has_docstring: b, ..m.classes[c as int] }),
        ..m
    }
}

/// How a code line inside the innermost open block changes what is known of
/// that block: a class or function learns from its first statement whether
/// it has a docstring, a function from every line whether it returns `body`,
/// and an `__init__` records the attributes it assigns on `self`.
pub open spec fn body_step(m: ModuleModel, cs: Seq<Context>, ind: usize, t: Seq<char>) -> (ModuleModel, Seq<Context>) {
    if cs.len() == 0 {
        (m, cs)
    } else {
        let last = cs.len() - 1;
        match cs.last() {
            Context::Class(c) => if ind > c.indent && !c.first_stmt_seen {
                let m2 = match c.class_index {
                    Some(ci) => set_class_doc(m, ci, is_docstring_line_spec(t)),
                    None => m,
                };
                (m2, cs.update(last, Context::Class(ClassContext { first_stmt_seen: true, ..c })))
            } else {
                (m, cs)
            },
            Context::Function(f) => if ind > f.indent {
                let m1 = if !f.first_stmt_seen {
                    set_doc(m, f.target, is_docstring_line_spec(t))
                } else {
                    m
                };
                let m2 = if returns_body_spec(t) {
                    set_returns(m1, f.target)
                } else {
                    m1
                };
                let m3 = if f.is_init_method && f.class_index is Some && self_assignment_spec(t) is Some {
                    add_init_assignment(m2, f.class_index->0, self_assignment_spec(t)->0)
                } else {
                    m2
                };
                (m3, cs.update(last, Context::Function(FunctionContext { first_stmt_seen: true, ..f })))
            } else {
                (m, cs)
            },
        }
    }
}

/// The effect of a (trimmed) line that defines a class: a nested class of the
/// enclosing top-level class, a new top-level class at indentation 0, or a
/// block that is not recorded; `None` when the line defines no class.
pub open spec fn class_step(m: ModuleModel, cs: Seq<Context>, t: Seq<char>, ind: usize, line_no: usize) -> Option<
    (ModuleModel, Seq<Context>),
> {
    match class_def_spec(t) {
        None => None,
        Some((name, bases)) => match top_level_class(cs) {
            Some(pi) => Some(
                (
                    ModuleModel {
                        classes: m.classes.update(
                            pi as int,
                            ClassModel {
                                inner_classes: m.classes[pi as int].inner_classes.push(
                                    NestedClassModel { name, bases, line: line_no, fields: Seq::empty() },
                                ),
                                ..m.classes[pi as int]
                            },
                        ),
                        ..m
                    },
                    cs.push(Context::Class(ClassContext { indent: ind, class_index: None, first_stmt_seen: false })),
                ),
            ),
            None => if ind == 0 {
                Some(
                    (
                        ModuleModel {
                            classes: m.classes.push(
                                ClassModel {
                                    name,
                                    line: line_no,
                                    column: (ind + 1) as usize,
                                    bases,
                                    methods: Seq::empty(),
                                    inner_classes: Seq::empty(),
                                    init_assignments: Seq::empty(),
                                    has_docstring: false,
                                },
                            ),
                            ..m
                        },
                        cs.push(
                            Context::Class(
                                ClassContext {
                                    indent: ind,
                                    class_index: Some(m.classes.len() as usize),
                                    first_stmt_seen: false,
                                },
                            ),
                        ),
                    ),
                )
            } else {
                Some(
                    (
                        m,
                        cs.push(Context::Class(ClassContext { indent: ind, class_index: None, first_stmt_seen: false })),
                    ),
                )
            },
        },
    }
}

/// The function a definition introduces.
pub open spec fn function_model(d: FunctionDefModel, line_no: usize, ind: usize) -> FunctionModel {
    FunctionModel {
        name: d.name,
        line: line_no,
        column: (ind + 1) as usize,
        args: d.args,
        decorators: Seq::empty(),
        is_async: d.is_async,
        has_docstring: false,
        returns_annotation: d.returns_annotation,
        returns_body: false,
    }
}

/// The effect of a definition starting at line `idx`: a method of the class
/// whose body it is in, a top-level function at indentation 0, or a block
/// that is not recorded; with the number of lines its signature spans.
pub open spec fn function_step(
    m: ModuleModel,
    cs: Seq<Context>,
    ls: Seq<Seq<char>>,
    idx: int,
    ind: usize,
    line_no: usize,
) -> (ModuleModel, Seq<Context>, int) {
    let (sig, consumed) = collect_signature(ls, idx);
    match function_def_spec(trim(sig)) {
        None => (m, cs, consumed),
        Some(d) => {
            let f = function_model(d, line_no, ind);
            match direct_parent_class(cs) {
                Some(ci) => (
                    ModuleModel {
                        classes: m.classes.update(
                            ci as int,
                            ClassModel { methods: m.classes[ci as int].methods.push(f), ..m.classes[ci as int] },
                        ),
                        ..m
                    },
                    cs.push(
                        Context::Function(
                            FunctionContext {
                                indent: ind,
                                target: FunctionTarget::Method {
                                    class_index: ci,
                                    method_index: m.classes[ci as int].methods.len() as usize,
                                },
                                class_index: Some(ci),
                                is_init_method: d.name == "__init__"@,
                                first_stmt_seen: false,
                            },
                        ),
                    ),
                    consumed,
                ),
                None => if ind == 0 {
                    (
                        ModuleModel { functions: m.functions.push(f), ..m },
                        cs.push(
                            Context::Function(
                                FunctionContext {
                                    indent: ind,
                                    target: FunctionTarget::Module(m.functions.len() as usize),
                                    class_index: None,
                                    is_init_method: false,
                                    first_stmt_seen: false,
                                },
                            ),
                        ),
                        consumed,
                    )
                } else {
                    (
                        m,
                        cs.push(
                            Context::Function(
                                FunctionContext {
                                    indent: ind,
                                    target: FunctionTarget::Ignore,
                                    class_index: top_level_class(cs),
                                    is_init_method: false,
                                    first_stmt_seen: false,
                                },
                            ),
                        ),
                        consumed,
                    )
                },
            }
        },
    }
}

pub proof fn lemma_collect_from_consumed(ls: Seq<Seq<char>>, start: int, consumed: int, sig: Seq<char>)
    requires
        0 <= start,
        1 <= consumed,
        start + consumed <= ls.len(),
    ensures
        consumed <= collect_from(ls, start, consumed, sig).1,
        start + collect_from(ls, start, consumed, sig).1 <= ls.len(),
    decreases ls.len() - (start + consumed),
{
    if !(signature_complete(sig) || start + consumed >= ls.len()) {
        let next = signature_piece(ls[start + consumed]);
        let sig2 = if next.len() > 0 {
            if sig.len() > 0 {
                sig + seq![' '] + next
            } else {
                next
            }
        } else {
            sig
        };
        lemma_collect_from_consumed(ls, start, consumed + 1, sig2);
    }
}

/// The module after the lines `ls[idx..]`, given what is known so far, the
/// open blocks and the multi-line string state. Blank lines, comments and
/// lines inside a multi-line string are skipped; a code line first closes the
/// blocks it is not indented into, then informs the innermost open block, and
/// is then recorded as an import (at indentation 0), a class or a function.
pub open spec fn parse_from(ls: Seq<Seq<char>>, idx: int, m: ModuleModel, cs: Seq<Context>, ml: Option<char>) -> ModuleModel
    decreases ls.len() - idx,
{
    if idx < 0 || idx >= ls.len() {
        m
    } else {
        let raw = ls[idx];
        let line_no = (idx + 1) as usize;
        let ind = indent(raw);
        let t = trim(raw);
        let ml2 = multiline_after(raw, ml);
        if t.len() == 0 || starts_with(t, seq!['#']) || ml is Some {
            parse_from(ls, idx + 1, m, cs, ml2)
        } else {
            let cs1 = pop_contexts(cs, ind);
            let (m2, cs2) = body_step(m, cs1, ind, t);
            if ind == 0 && import_spec(t) is Some {
                parse_from(ls, idx + 1, ModuleModel { imports: m2.imports.push(import_spec(t)->0), ..m2 }, cs2, ml2)
            } else if ind == 0 && import_from_spec(t) is Some {
                parse_from(
                    ls,
                    idx + 1,
                    ModuleModel { imports: m2.imports.push(import_from_spec(t)->0), ..m2 },
                    cs2,
                    ml2,
                )
            } else {
                match class_step(m2, cs2, t, ind, line_no) {
                    Some((m3, cs3)) => parse_from(ls, idx + 1, m3, cs3, ml2),
                    None => if is_function_start_spec(t) {
                        let (m3, cs3, consumed) = function_step(m2, cs2, ls, idx, ind, line_no);
                        proof {
                            lemma_collect_from_consumed(ls, idx, 1, signature_piece(ls[idx]));
                        }
                        parse_from(ls, idx + consumed, m3, cs3, ml2)
                    } else {
                        parse_from(ls, idx + 1, m2, cs2, ml2)
                    },
                }
            }
        }
    }
}

/// Whether a nested class holds configuration fields.
pub open spec fn is_valves_name(n: Seq<char>) -> bool {
    n == "Valves"@ || n == "UserValves"@
}

/// The nested class with its fields read from the lines, when it is a
/// `Valves` or `UserValves` class.
pub open spec fn with_fields(n: NestedClassModel, ls: Seq<Seq<char>>) -> NestedClassModel {
    if is_valves_name(n.name) {
        NestedClassModel {
            fields: valve_fields_spec(ls, if n.line >= 1 { n.line - 1 } else { 0 }),
            ..n
        }
    } else {
        n
    }
}

/// The module with the fields of every `Valves`/`UserValves` class filled in.
pub open spec fn with_valve_fields(m: ModuleModel, ls: Seq<Seq<char>>) -> ModuleModel {
    ModuleModel {
        classes: m.classes.map_values(
            |c: ClassModel| ClassModel { inner_classes: c.inner_classes.map_values(|n: NestedClassModel| with_fields(n, ls)), ..c },
        ),
        ..m
    }
}

/// The module as the scan first knows it: its docstring, nothing else.
pub open spec fn initial_module(path: Seq<char>, ls: Seq<Seq<char>>) -> ModuleModel {
    let doc = module_docstring_spec_lines(ls);
    ModuleModel {
        path,
        syntax_ok: true,
        syntax_error: None,
        module_docstring: match doc {
            Some((d, _)) => Some(d),
            None => None,
        },
        module_docstring_line: match doc {
            Some((_, l)) => Some(l as usize),
            None => None,
        },
        imports: Seq::empty(),
        functions: Seq::empty(),
        classes: Seq::empty(),
    }
}

/// What the analyzer learns of a module without syntax problems.
pub open spec fn parse_module_spec(path: Seq<char>, source: Seq<char>) -> ModuleModel {
    let ls = lines(source);
    with_valve_fields(parse_from(ls, 0, initial_module(path, ls), Seq::empty(), None), ls)
}

/// What the analyzer learns of a module: a syntax problem, or its structure.
pub open spec fn analyze_spec(path: Seq<char>, source: Seq<char>) -> ModuleModel {
    match syntax_error_of(source) {
        Some(e) => ModuleModel {
            path,
            syntax_ok: false,
            syntax_error: Some(e),
            module_docstring: None,
            module_docstring_line: None,
            imports: Seq::empty(),
            functions: Seq::empty(),
            classes: Seq::empty(),
        },
        None => parse_module_spec(path, source),
    }
}

pub proof fn lemma_contexts_wf_prefix(m: ModuleModel, cs: Seq<Context>, k: int)
    requires
        contexts_wf(m, cs),
        0 <= k <= cs.len(),
    ensures
        contexts_wf(m, cs.subrange(0, k)),
{
    assert forall|i: int| 0 <= i < k implies #[trigger] cs.subrange(0, k)[i] == cs[i] by {}
}

/// Whether `m2` keeps every index that is valid in `m` valid.
pub open spec fn extends(m: ModuleModel, m2: ModuleModel) -> bool {
    &&& m.classes.len() <= m2.classes.len()
    &&& m.functions.len() <= m2.functions.len()
    &&& forall|c: int| 0 <= c < m.classes.len() ==> #[trigger] m.classes[c].methods.len() <= m2.classes[c].methods.len()
}

pub proof fn lemma_contexts_wf_extends(m: ModuleModel, m2: ModuleModel, cs: Seq<Context>)
    requires
        contexts_wf(m, cs),
        extends(m, m2),
    ensures
        contexts_wf(m2, cs),
{
    assert forall|k: int| 0 <= k < cs.len() implies match #[trigger] cs[k] {
        Context::Class(c) => c.class_index matches Some(ci) ==> ci < m2.classes.len(),
        Context::Function(f) => {
            &&& f.class_index matches Some(ci) ==> ci < m2.classes.len()
            &&& match f.target {
                FunctionTarget::Module(fi) => fi < m2.functions.len(),
                FunctionTarget::Method { class_index, method_index } => class_index < m2.classes.len()
                    && method_index < m2.classes[class_index as int].methods.len(),
                FunctionTarget::Ignore => true,
            }
        },
    } by {
        match cs[k] {
            Context::Class(c) => {},
            Context::Function(f) => {
                match f.target {
                    FunctionTarget::Method { class_index, method_index } => {
                        assert(m.classes[class_index as int].methods.len() <= m2.classes[class_index as int].methods.len());
                    },
                    _ => {},
                }
            },
        }
    }
}

fn body_step_exec(module: &mut ModuleInfo, contexts: &mut Vec<Context>, ind: usize, t: &[char])
    requires
        contexts_wf(old(module)@, old(contexts)@),
    ensures
        (final(module)@, final(contexts)@) == body_step(old(module)@, old(contexts)@, ind, t@),
        contexts_wf(final(module)@, final(contexts)@),
        extends(old(module)@, final(module)@),
{
    let ghost m0 = module@;
    let ghost cs0 = contexts@;
    if contexts.len() == 0 {
        return;
    }
    let last = contexts.len() - 1;
    assert(cs0.last() == cs0[last as int]);
    match contexts[last] {
        Context::Class(c) => {
            if ind > c.indent && !c.first_stmt_seen {
                match c.class_index {
                    Some(ci) => {
                        let b = is_docstring_line(t);
                        module.classes[ci].has_docstring = b;
                        assert(module@.classes =~= set_class_doc(m0, ci, b).classes);
                    },
                    None => {},
                }
                contexts.set(last, Context::Class(ClassContext { first_stmt_seen: true, ..c }));
                proof {
                    assert(extends(m0, module@));
                    lemma_contexts_wf_extends(m0, module@, cs0);
                    assert forall|k: int| 0 <= k < contexts@.len() implies #[trigger] contexts@[k] == cs0[k]
                        || k == last by {}
                }
            }
        },
        Context::Function(f) => {
            if ind > f.indent {
                if !f.first_stmt_seen {
                    set_function_docstring(module, f.target, t);
                }
                let ghost m1 = module@;
                assert(extends(m0, m1));
                if returns_body(t) {
                    set_function_returns_body(module, f.target);
                }
                let ghost m2 = module@;
                assert(extends(m0, m2));
                if f.is_init_method {
                    match f.class_index {
                        Some(ci) => {
                            match self_assignment_name(t) {
                                Some(name) => {
                                    add_init_assignment_exec(module, ci, name.as_slice());
                                },
                                None => {},
                            }
                        },
                        None => {},
                    }
                }
                assert(extends(m0, module@));
                contexts.set(last, Context::Function(FunctionContext { first_stmt_seen: true, ..f }));
                proof {
                    lemma_contexts_wf_extends(m0, module@, cs0);
                }
            }
        },
    }
}

fn handle_class_definition(
    module: &mut ModuleInfo,
    contexts: &mut Vec<Context>,
    t: &[char],
    ind: usize,
    line_no: usize,
) -> (r: bool)
    requires
        contexts_wf(old(module)@, old(contexts)@),
        ind < usize::MAX,
    ensures
        r == class_step(old(module)@, old(contexts)@, t@, ind, line_no) is Some,
        r ==> class_step(old(module)@, old(contexts)@, t@, ind, line_no) == Some((final(module)@, final(contexts)@)),
        !r ==> final(module)@ == old(module)@ && final(contexts)@ == old(contexts)@,
        contexts_wf(final(module)@, final(contexts)@),
        extends(old(module)@, final(module)@),
{
    let ghost m0 = module@;
    let ghost cs0 = contexts@;
    let (name, bases) = match parse_class_definition(t) {
        Some(d) => d,
        None => {
            return false;
        },
    };
    let column = ind + 1;
    match current_top_level_class_index(contexts) {
        Some(pi) => {
            proof {
                lemma_top_level_class_valid(m0, cs0);
            }
            let n = NestedClassInfo { name, bases, line: line_no, fields: Vec::new() };
            assert(n@.fields =~= Seq::<ValveFieldModel>::empty());
            let ghost nv = n@;
            module.classes[pi].inner_classes.push(n);
            proof {
                assert(module@.classes[pi as int].inner_classes =~= m0.classes[pi as int].inner_classes.push(nv));
                assert(module@.classes =~= class_step(m0, cs0, t@, ind, line_no).unwrap().0.classes);
            }
            contexts.push(Context::Class(ClassContext { indent: ind, class_index: None, first_stmt_seen: false }));
        },
        None => {
            if ind == 0 {
                let ci = module.classes.len();
                let cls = ClassInfo {
                    name,
                    line: line_no,
                    column,
                    bases,
                    methods: Vec::new(),
                    inner_classes: Vec::new(),
                    init_assignments: Vec::new(),
                    has_docstring: false,
                };
                proof {
                    assert(cls@.methods =~= Seq::<FunctionModel>::empty());
                    assert(cls@.inner_classes =~= Seq::<NestedClassModel>::empty());
                    assert(cls@.init_assignments =~= Seq::<Seq<char>>::empty());
                }
                module.classes.push(cls);
                assert(module@.classes =~= class_step(m0, cs0, t@, ind, line_no).unwrap().0.classes);
                contexts.push(Context::Class(ClassContext { indent: ind, class_index: Some(ci), first_stmt_seen: false }));
            } else {
                contexts.push(Context::Class(ClassContext { indent: ind, class_index: None, first_stmt_seen: false }));
            }
        },
    }
    proof {
        assert(extends(m0, module@));
        lemma_contexts_wf_extends(m0, module@, cs0);
        assert forall|k: int| 0 <= k < cs0.len() implies #[trigger] contexts@[k] == cs0[k] by {}
    }
    true
}

pub proof fn lemma_top_level_class_valid(m: ModuleModel, cs: Seq<Context>)
    requires
        contexts_wf(m, cs),
    ensures
        top_level_class(cs) matches Some(ci) ==> ci < m.classes.len(),
    decreases cs.len(),
{
    if cs.len() > 0 {
        assert(cs.last() == cs[cs.len() - 1]);
        lemma_contexts_wf_prefix(m, cs, cs.len() - 1);
        assert(cs.drop_last() =~= cs.subrange(0, cs.len() - 1));
        lemma_top_level_class_valid(m, cs.drop_last());
    }
}

fn handle_function_definition(
    module: &mut ModuleInfo,
    contexts: &mut Vec<Context>,
    ls: &Vec<Vec<char>>,
    idx: usize,
    ind: usize,
    line_no: usize,
) -> (consumed: usize)
    requires
        contexts_wf(old(module)@, old(contexts)@),
        idx < ls@.len(),
        ind < usize::MAX,
    ensures
        function_step(old(module)@, old(contexts)@, views(ls@), idx as int, ind, line_no) == (
            final(module)@,
            final(contexts)@,
            consumed as int,
        ),
        1 <= consumed,
        idx + consumed <= ls@.len(),
        contexts_wf(final(module)@, final(contexts)@),
        extends(old(module)@, final(module)@),
{
    let ghost m0 = module@;
    let ghost cs0 = contexts@;
    let (sig, consumed) = collect_function_signature(ls, idx);
    let t = trim_chars(sig.as_slice());
    let def = match parse_function_definition(t.as_slice()) {
        Some(d) => d,
        None => {
            return consumed;
        },
    };
    let column = ind + 1;
    let is_init = chars_eq(chars_of(def.name.as_str()).as_slice(), chars_of("__init__").as_slice());
    let ghost dm = def@;
    let info = FunctionInfo {
        name: def.name,
        line: line_no,
        column,
        args: def.args,
        decorators: Vec::new(),
        is_async: def.is_async,
        has_docstring: false,
        returns_annotation: def.returns_annotation,
        returns_body: false,
    };
    assert(info@.decorators =~= Seq::<Seq<char>>::empty());
    assert(info@ == function_model(dm, line_no, ind));
    match direct_parent_class_index(contexts) {
        Some(ci) => {
            proof {
                assert(cs0.last() == cs0[cs0.len() - 1]);
            }
            let mi = module.classes[ci].methods.len();
            module.classes[ci].methods.push(info);
            assert(module@.classes[ci as int].methods =~= m0.classes[ci as int].methods.push(info@));
            assert(module@.classes =~= function_step(m0, cs0, views(ls@), idx as int, ind, line_no).0.classes);
            contexts.push(
                Context::Function(
                    FunctionContext {
                        indent: ind,
                        target: FunctionTarget::Method { class_index: ci, method_index: mi },
                        class_index: Some(ci),
                        is_init_method: is_init,
                        first_stmt_seen: false,
                    },
                ),
            );
        },
        None => {
            if ind == 0 {
                let fi = module.functions.len();
                module.functions.push(info);
                assert(module@.functions =~= m0.functions.push(info@));
                contexts.push(
                    Context::Function(
                        FunctionContext {
                            indent: ind,
                            target: FunctionTarget::Module(fi),
                            class_index: None,
                            is_init_method: false,
                            first_stmt_seen: false,
                        },
                    ),
                );
            } else {
                let k = current_top_level_class_index(contexts);
                proof {
                    lemma_top_level_class_valid(m0, cs0);
                }
                contexts.push(
                    Context::Function(
                        FunctionContext {
                            indent: ind,
                            target: FunctionTarget::Ignore,
                            class_index: k,
                            is_init_method: false,
                            first_stmt_seen: false,
                        },
                    ),
                );
            }
        },
    }
    proof {
        assert(extends(m0, module@));
        lemma_contexts_wf_extends(m0, module@, cs0);
        assert forall|k: int| 0 <= k < cs0.len() implies #[trigger] contexts@[k] == cs0[k] by {}
    }
    consumed
}

fn fill_valve_fields(module: &mut ModuleInfo, ls: &Vec<Vec<char>>)
    requires
        ls@.len() < usize::MAX,
    ensures
        final(module)@ == with_valve_fields(old(module)@, views(ls@)),
{
    let ghost m0 = module@;
    let ghost lv = views(ls@);
    let valves = chars_of("Valves");
    let user_valves = chars_of("UserValves");
    let mut c: usize = 0;
    while c < module.classes.len()
        invariant
            ls@.len() < usize::MAX,
            lv == views(ls@),
            valves@ == "Valves"@,
            user_valves@ == "UserValves"@,
            c <= module@.classes.len(),
            module@.classes.len() == m0.classes.len(),
            module@ == (ModuleModel { classes: module@.classes, ..m0 }),
            forall|k: int| 0 <= k < c ==> #[trigger] module@.classes[k] == (ClassModel {
                inner_classes: m0.classes[k].inner_classes.map_values(|n: NestedClassModel| with_fields(n, lv)),
                ..m0.classes[k]
            }),
            forall|k: int| c <= k < module@.classes.len() ==> #[trigger] module@.classes[k] == m0.classes[k],
        decreases module.classes.len() - c,
    {
        let ghost cm = module@.classes[c as int];
        let mut j: usize = 0;
        while j < module.classes[c].inner_classes.len()
            invariant
                ls@.len() < usize::MAX,
                lv == views(ls@),
                valves@ == "Valves"@,
                user_valves@ == "UserValves"@,
                c < module@.classes.len(),
                module@.classes.len() == m0.classes.len(),
                module@ == (ModuleModel { classes: module@.classes, ..m0 }),
                forall|k: int| 0 <= k < c ==> #[trigger] module@.classes[k] == (ClassModel {
                    inner_classes: m0.classes[k].inner_classes.map_values(|n: NestedClassModel| with_fields(n, lv)),
                    ..m0.classes[k]
                }),
                forall|k: int| c < k < module@.classes.len() ==> #[trigger] module@.classes[k] == m0.classes[k],
                cm == m0.classes[c as int],
                j <= module@.classes[c as int].inner_classes.len(),
                module@.classes[c as int] == (ClassModel { inner_classes: module@.classes[c as int].inner_classes, ..cm }),
                module@.classes[c as int].inner_classes.len() == cm.inner_classes.len(),
                forall|k: int| 0 <= k < j ==> #[trigger] module@.classes[c as int].inner_classes[k] == with_fields(cm.inner_classes[k], lv),
                forall|k: int| j <= k < cm.inner_classes.len() ==> #[trigger] module@.classes[c as int].inner_classes[k] == cm.inner_classes[k],
            decreases module.classes[c as int].inner_classes.len() - j,
        {
            assert(module@.classes[c as int] == module.classes@[c as int]@);
            assert(module@.classes[c as int].inner_classes[j as int] == module.classes@[c as int].inner_classes@[j as int]@);
            assert(module@.classes[c as int].inner_classes[j as int] == cm.inner_classes[j as int]);
            let name = chars_of(module.classes[c].inner_classes[j].name.as_str());
            if chars_eq(name.as_slice(), valves.as_slice()) || chars_eq(name.as_slice(), user_valves.as_slice()) {
                let line = module.classes[c].inner_classes[j].line;
                let at = if line >= 1 {
                    line - 1
                } else {
                    0
                };
                let fields = parse_valve_fields(ls, at);
                let ghost before = module@;
                assert(is_valves_name(cm.inner_classes[j as int].name));
                assert(at == (if cm.inner_classes[j as int].line >= 1 { cm.inner_classes[j as int].line - 1 } else { 0 }));
                module.classes[c].inner_classes[j].fields = fields;
                proof {
                    assert(module@.classes[c as int].inner_classes[j as int] =~= with_fields(cm.inner_classes[j as int], lv));
                    assert forall|k: int| 0 <= k < module@.classes.len() && k != c implies #[trigger] module@.classes[k] == before.classes[k] by {}
                    assert forall|k: int| 0 <= k < cm.inner_classes.len() && k != j implies #[trigger] module@.classes[c as int].inner_classes[k] == before.classes[c as int].inner_classes[k] by {}
                }
            }
            j += 1;
        }
        proof {
            assert(module@.classes[c as int].inner_classes =~= cm.inner_classes.map_values(|n: NestedClassModel| with_fields(n, lv)));
        }
        c += 1;
    }
    assert(module@.classes =~= with_valve_fields(m0, lv).classes);
}

/// The structure of a module whose text has no basic syntax problems.
pub fn parse_module(path: &str, source: &str) -> (r: ModuleInfo)
    requires
        source@.len() <= usize::MAX / 8,
    ensures
        r@ == parse_module_spec(path@, source@),
        classes_placed(r@.classes, lines(source@).len() as int),
{
    let text = chars_of(source);
    let ls = lines_of(text.as_slice());
    let ghost lv = views(ls@);
    proof {
        crate::text::lemma_lines_count(source@);
        crate::text::lemma_lines_bounded(source@);
    }
    let n = ls.len();
    let doc = extract_module_docstring(&ls);
    let (module_docstring, module_docstring_line) = match doc {
        Some((d, l)) => (Some(d), Some(l)),
        None => (None, None),
    };
    let mut module = ModuleInfo {
        path: string_of(chars_of(path).as_slice()),
        syntax_ok: true,
        syntax_error: None,
        module_docstring,
        module_docstring_line,
        imports: Vec::new(),
        functions: Vec::new(),
        classes: Vec::new(),
    };
    let ghost init = initial_module(path@, lv);
    assert(module@ =~= init);
    let mut contexts: Vec<Context> = Vec::new();
    let mut ml: Option<char> = None;
    let mut idx: usize = 0;
    assert(contexts@ =~= Seq::<Context>::empty());
    while idx < n
        invariant
            n == ls@.len(),
            lv == views(ls@),
            lv == lines(source@),
            n <= source@.len(),
            source@.len() <= usize::MAX / 8,
            forall|k: int| 0 <= k < lv.len() ==> #[trigger] lv[k].len() <= source@.len(),
            idx <= n,
            contexts_wf(module@, contexts@),
            classes_placed(module@.classes, idx as int),
            parse_from(lv, 0, init, Seq::empty(), None) == parse_from(lv, idx as int, module@, contexts@, ml),
        decreases n - idx,
    {
        assert(lv[idx as int] == ls@[idx as int]@);
        let raw = ls[idx].as_slice();
        let line_no = idx + 1;
        let ind = indent_of(raw);
        proof {
            crate::util::lemma_indent_width_bound(raw@);
            assert(raw@.len() <= source@.len());
        }
        let t = trim_chars(raw);
        let was = ml.is_some();
        ml = update_multiline_state(raw, ml);
        let hash: Vec<char> = vec!['#'];
        assert(hash@ =~= seq!['#']);
        if t.len() == 0 || starts_with_chars(t.as_slice(), hash.as_slice()) || was {
            idx += 1;
            continue;
        }
        let ghost cs_before = contexts@;
        while contexts.len() > 0 && ind <= ctx_indent_exec(&contexts[contexts.len() - 1])
            invariant
                contexts_wf(module@, contexts@),
                pop_contexts(cs_before, ind) == pop_contexts(contexts@, ind),
            decreases contexts.len(),
        {
            let ghost before = contexts@;
            assert(before.last() == before[before.len() - 1]);
            contexts.pop();
            proof {
                assert(contexts@ =~= before.subrange(0, before.len() - 1));
                lemma_contexts_wf_prefix(module@, before, before.len() - 1);
            }
        }
        proof {
            if contexts@.len() > 0 {
                assert(contexts@.last() == contexts@[contexts@.len() - 1]);
            }
        }
        let ghost m_pre = module@;
        let ghost cs_pre = contexts@;
        body_step_exec(&mut module, &mut contexts, ind, t.as_slice());
        proof {
            lemma_body_step_places(m_pre, cs_pre, ind, t@, idx as int);
        }
        if ind == 0 {
            match parse_import(t.as_slice()) {
                Some(imp) => {
                    let ghost before = module@;
                    module.imports.push(imp);
                    assert(module@.imports =~= before.imports.push(import_spec(t@)->0));
                    assert(module@ =~= (ModuleModel { imports: before.imports.push(import_spec(t@)->0), ..before }));
                    idx += 1;
                    continue;
                },
                None => {},
            }
            match parse_import_from(t.as_slice()) {
                Some(imp) => {
                    let ghost before = module@;
                    module.imports.push(imp);
                    assert(module@.imports =~= before.imports.push(import_from_spec(t@)->0));
                    assert(module@ =~= (ModuleModel { imports: before.imports.push(import_from_spec(t@)->0), ..before }));
                    idx += 1;
                    continue;
                },
                None => {},
            }
        }
        let ghost m_cls = module@;
        let ghost cs_cls = contexts@;
        proof {
            lemma_class_step_places(m_cls, cs_cls, t@, ind, idx as int);
        }
        if handle_class_definition(&mut module, &mut contexts, t.as_slice(), ind, line_no) {
            idx += 1;
            continue;
        }
        if is_function_start(t.as_slice()) {
            proof {
                lemma_function_step_places(m_cls, cs_cls, lv, idx as int, ind, line_no, idx as int);
            }
            let consumed = handle_function_definition(&mut module, &mut contexts, &ls, idx, ind, line_no);
            idx += consumed;
            continue;
        }
        idx += 1;
    }
    let ghost before_fields = module@;
    fill_valve_fields(&mut module, &ls);
    proof {
        assert(forall|i: int| 0 <= i < module@.classes.len() ==> #[trigger] module@.classes[i].line
            == before_fields.classes[i].line && module@.classes[i].column == before_fields.classes[i].column);
    }
    module
}

fn ctx_indent_exec(c: &Context) -> (r: usize)
    ensures
        r == ctx_indent(*c),
{
    match c {
        Context::Class(k) => k.indent,
        Context::Function(f) => f.indent,
    }
}

/// What the analyzer learns of a module from its text: a basic syntax
/// problem if it has one, its structure otherwise.
pub fn analyze_source(path: &str, source: &str) -> (r: ModuleInfo)
    requires
        source@.len() <= usize::MAX / 8,
    ensures
        r@ == analyze_spec(path@, source@),
        classes_placed(r@.classes, lines(source@).len() as int),
{
    match detect_syntax_error(source) {
        Some(error) => {
            let r = ModuleInfo {
                path: string_of(chars_of(path).as_slice()),
                syntax_ok: false,
                syntax_error: Some(error),
                module_docstring: None,
                module_docstring_line: None,
                imports: Vec::new(),
                functions: Vec::new(),
                classes: Vec::new(),
            };
            assert(r@ =~= analyze_spec(path@, source@));
            r
        },
        None => parse_module(path, source),
    }
}

/// The module record of a file that could not be read: a syntax failure
/// whose message carries the reason.
pub open spec fn unreadable_spec(path: Seq<char>, reason: Seq<char>) -> ModuleModel {
    ModuleModel {
        path,
        syntax_ok: false,
        syntax_error: Some(
            SyntaxErrorModel {
                message: "Unable to read file: "@ + reason,
                line: 1,
                column: 1,
                text: None,
            },
        ),
        module_docstring: None,
        module_docstring_line: None,
        imports: Seq::empty(),
        functions: Seq::empty(),
        classes: Seq::empty(),
    }
}

/// The module record of a file that could not be read: a syntax failure
/// whose message carries the reason.
pub fn unreadable_module(path: &str, reason: &str) -> (r: ModuleInfo)
    ensures
        r@ == unreadable_spec(path@, reason@),
{
    let mut msg = chars_of("Unable to read file: ");
    let reason_chars = chars_of(reason);
    let ghost base = msg@;
    let mut i: usize = 0;
    while i < reason_chars.len()
        invariant
            i <= reason_chars@.len(),
            msg@ == base + reason_chars@.subrange(0, i as int),
        decreases reason_chars.len() - i,
    {
        msg.push(reason_chars[i]);
        assert(reason_chars@.subrange(0, i + 1) =~= reason_chars@.subrange(0, i as int).push(reason_chars@[i as int]));
        i += 1;
    }
    assert(reason_chars@.subrange(0, i as int) =~= reason_chars@);
    let r = ModuleInfo {
        path: string_of(chars_of(path).as_slice()),
        syntax_ok: false,
        syntax_error: Some(
            SyntaxErrorInfo { message: string_of(msg.as_slice()), line: 1, column: 1, text: None },
        ),
        module_docstring: None,
        module_docstring_line: None,
        imports: Vec::new(),
        functions: Vec::new(),
        classes: Vec::new(),
    };
    assert(r@ =~= unreadable_spec(path@, reason@));
    r
}

/// Whether the top-level classes each start in column 1 on one of the first
/// `upto` lines, in strictly increasing line order.
pub open spec fn classes_placed(cs: Seq<ClassModel>, upto: int) -> bool {
    &&& forall|i: int| 0 <= i < cs.len() ==> (#[trigger] cs[i]).column == 1 && 1 <= cs[i].line <= upto
    &&& forall|i: int, j: int| 0 <= i < j < cs.len() ==> (#[trigger] cs[i]).line < (#[trigger] cs[j]).line
}

proof fn lemma_body_step_places(m: ModuleModel, cs: Seq<Context>, ind: usize, t: Seq<char>, upto: int)
    requires
        classes_placed(m.classes, upto),
        contexts_wf(m, cs),
    ensures
        classes_placed(body_step(m, cs, ind, t).0.classes, upto),
{
    if cs.len() > 0 {
        assert(cs.last() == cs[cs.len() - 1]);
        match cs.last() {
            Context::Class(c) => {
                match c.class_index {
                    Some(ci) => {
                        let n = set_class_doc(m, ci, is_docstring_line_spec(t)).classes;
                        assert(forall|i: int| 0 <= i < n.len() ==> #[trigger] n[i].line == m.classes[i].line
                            && n[i].column == m.classes[i].column);
                    },
                    None => {},
                }
            },
            Context::Function(f) => {
                let m1 = if !f.first_stmt_seen {
                    set_doc(m, f.target, is_docstring_line_spec(t))
                } else {
                    m
                };
                assert(m1.classes.len() == m.classes.len());
                assert(forall|i: int| 0 <= i < m1.classes.len() ==> #[trigger] m1.classes[i].line == m.classes[i].line
                    && m1.classes[i].column == m.classes[i].column);
                let m2 = if returns_body_spec(t) {
                    set_returns(m1, f.target)
                } else {
                    m1
                };
                assert(m2.classes.len() == m.classes.len());
                assert(forall|i: int| 0 <= i < m2.classes.len() ==> #[trigger] m2.classes[i].line == m.classes[i].line
                    && m2.classes[i].column == m.classes[i].column);
                if f.is_init_method && f.class_index is Some && self_assignment_spec(t) is Some {
                    let m3 = add_init_assignment(m2, f.class_index->0, self_assignment_spec(t)->0);
                    assert(forall|i: int| 0 <= i < m3.classes.len() ==> #[trigger] m3.classes[i].line
                        == m.classes[i].line && m3.classes[i].column == m.classes[i].column);
                }
            },
        }
    }
}

proof fn lemma_class_step_places(m: ModuleModel, cs: Seq<Context>, t: Seq<char>, ind: usize, upto: int)
    requires
        classes_placed(m.classes, upto),
        contexts_wf(m, cs),
        0 <= upto,
        upto + 1 <= usize::MAX,
    ensures
        class_step(m, cs, t, ind, (upto + 1) as usize) matches Some((m3, _)) ==> classes_placed(
            m3.classes,
            upto + 1,
        ),
{
    lemma_top_level_class_valid(m, cs);
    match class_step(m, cs, t, ind, (upto + 1) as usize) {
        Some((m3, _)) => {
            match top_level_class(cs) {
                Some(pi) => {
                    assert(forall|i: int| 0 <= i < m3.classes.len() ==> #[trigger] m3.classes[i].line
                        == m.classes[i].line && m3.classes[i].column == m.classes[i].column);
                },
                None => {
                    assert(forall|i: int| 0 <= i < m.classes.len() ==> #[trigger] m3.classes[i] == m.classes[i]);
                },
            }
        },
        None => {},
    }
}

proof fn lemma_function_step_places(
    m: ModuleModel,
    cs: Seq<Context>,
    ls: Seq<Seq<char>>,
    idx: int,
    ind: usize,
    line_no: usize,
    upto: int,
)
    requires
        classes_placed(m.classes, upto),
        contexts_wf(m, cs),
    ensures
        classes_placed(function_step(m, cs, ls, idx, ind, line_no).0.classes, upto),
{
    if cs.len() > 0 {
        assert(cs.last() == cs[cs.len() - 1]);
    }
    let m3 = function_step(m, cs, ls, idx, ind, line_no).0;
    assert(m3.classes.len() == m.classes.len());
    assert(forall|i: int| 0 <= i < m3.classes.len() ==> #[trigger] m3.classes[i].line == m.classes[i].line
        && m3.classes[i].column == m.classes[i].column);
}

// ---------------------------------------------------------------------------
// Files
// ---------------------------------------------------------------------------

/// A Python file to lint: its path and either its text or the reason it
/// could not be read.
#[derive(Debug)]
pub struct SourceFile {
    pub path: String,
    pub contents: Result<String, String>,
}

#[verifier::ext_equal]
pub struct SourceFileModel {
    pub path: Seq<char>,
    pub contents: Result<Seq<char>, Seq<char>>,
}

impl View for SourceFile {
    type V = SourceFileModel;

    open spec fn view(&self) -> SourceFileModel {
        SourceFileModel {
            path: self.path@,
            contents: match self.contents {
                Ok(t) => Ok(t@),
                Err(e) => Err(e@),
            },
        }
    }
}

/// The views of some files.
pub open spec fn file_models(v: Seq<SourceFile>) -> Seq<SourceFileModel> {
    v.map_values(|f: SourceFile| f@)
}

/// Whether the text of a file fits the analyzer's bounds.
pub open spec fn file_fits(f: SourceFileModel) -> bool {
    match f.contents {
        Ok(t) => t.len() <= usize::MAX / 8,
        Err(_) => true,
    }
}

/// What the analyzer learns of a file.
pub open spec fn module_of(f: SourceFileModel) -> ModuleModel {
    match f.contents {
        Ok(t) => analyze_spec(f.path, t),
        Err(reason) => unreadable_spec(f.path, reason),
    }
}

/// What the analyzer learns of a file.
pub fn analyze_file(f: &SourceFile) -> (r: ModuleInfo)
    requires
        file_fits(f@),
    ensures
        r@ == module_of(f@),
{
    match &f.contents {
        Ok(t) => analyze_source(f.path.as_str(), t.as_str()),
        Err(reason) => unreadable_module(f.path.as_str(), reason.as_str()),
    }
}

} // verus!

//! A structural scan for basic syntax problems: unbalanced or mismatched
//! brackets and unterminated string literals. Brackets inside strings and
//! comments are ignored.

use vstd::prelude::*;
use crate::models::SyntaxErrorInfo;
use crate::models::SyntaxErrorModel;
use crate::text::chars_of;
use crate::text::string_of;
use crate::text::lines;
use crate::text::lines_of;
use crate::text::views;

verus! {

/// The scanner's state between characters.
pub struct ScanState {
    /// Open brackets with the line and column where each was opened.
    pub stack: Seq<(char, int, int)>,
    pub line: int,
    pub column: int,
    /// The quote character of the string being scanned, if any.
    pub quote: Option<char>,
    pub triple: bool,
    pub escaped: bool,
}

/// Position of the first line feed at or after `i` (or the end of `s`).
pub open spec fn next_newline(s: Seq<char>, i: int) -> int
    decreases s.len() - i,
{
    if i < 0 || i >= s.len() {
        s.len() as int
    } else if s[i] == '\n' {
        i
    } else {
        next_newline(s, i + 1)
    }
}

pub proof fn lemma_next_newline_ge(s: Seq<char>, i: int)
    requires
        0 <= i,
    ensures
        i <= next_newline(s, i) || (i > s.len() && next_newline(s, i) == s.len()),
        next_newline(s, i) <= s.len(),
    decreases s.len() - i,
{
    if i < s.len() && s[i] != '\n' {
        lemma_next_newline_ge(s, i + 1);
    }
}

/// The bracket stack of the scanner, as the specification states it.
pub open spec fn stack_model(v: Seq<(char, usize, usize)>) -> Seq<(char, int, int)> {
    v.map_values(|e: (char, usize, usize)| (e.0, e.1 as int, e.2 as int))
}

/// Line `k` (counted from 1) of `s`, if it has one.
pub open spec fn nth_line(s: Seq<char>, k: int) -> Option<Seq<char>> {
    if 1 <= k <= lines(s).len() {
        Some(lines(s)[k - 1])
    } else {
        None
    }
}

/// A syntax error report at (`line`, `column`), quoting that line of `s`.
pub open spec fn error_at(s: Seq<char>, message: Seq<char>, line: int, column: int) -> SyntaxErrorModel {
    SyntaxErrorModel {
        message,
        line: line as usize,
        column: column as usize,
        text: nth_line(s, line),
    }
}

/// The bracket a closing bracket expects.
pub open spec fn opener_of(c: char) -> char {
    if c == ')' {
        '('
    } else if c == ']' {
        '['
    } else {
        '{'
    }
}

/// What the scan reports once the end of `s` is reached: the innermost
/// unclosed bracket, else an unterminated string.
pub open spec fn scan_end(s: Seq<char>, st: ScanState) -> Option<SyntaxErrorModel> {
    if st.stack.len() > 0 {
        let (open, l, c) = st.stack.last();
        Some(error_at(s, "Unclosed delimiter: '"@ + seq![open] + "'"@, l, c))
    } else if st.quote is Some {
        Some(
            error_at(s, "Unclosed string literal: '"@ + seq![st.quote->0] + "'"@, st.line, st.column),
        )
    } else {
        None
    }
}

/// The scan of `s` from position `idx` in state `st`.
pub open spec fn scan(s: Seq<char>, idx: int, st: ScanState) -> Option<SyntaxErrorModel>
    decreases s.len() - idx,
{
    if idx < 0 || idx >= s.len() {
        scan_end(s, st)
    } else {
        let ch = s[idx];
        if ch == '\n' {
            scan(s, idx + 1, ScanState { line: st.line + 1, column: 0, escaped: false, ..st })
        } else {
            let column = st.column + 1;
            if st.quote is Some {
                let q = st.quote->0;
                if st.escaped {
                    scan(s, idx + 1, ScanState { column, escaped: false, ..st })
                } else if ch == '\\' {
                    scan(s, idx + 1, ScanState { column, escaped: true, ..st })
                } else if st.triple {
                    if ch == q && idx + 2 < s.len() && s[idx + 1] == q && s[idx + 2] == q {
                        scan(
                            s,
                            idx + 3,
                            ScanState { column: column + 2, quote: None, triple: false, ..st },
                        )
                    } else {
                        scan(s, idx + 1, ScanState { column, ..st })
                    }
                } else if ch == q {
                    scan(s, idx + 1, ScanState { column, quote: None, ..st })
                } else {
                    scan(s, idx + 1, ScanState { column, ..st })
                }
            } else if ch == '#' {
                proof {
                    lemma_next_newline_ge(s, idx + 1);
                }
                scan(s, next_newline(s, idx + 1), ScanState { column, ..st })
            } else if ch == '\'' || ch == '"' {
                if idx + 2 < s.len() && s[idx + 1] == ch && s[idx + 2] == ch {
                    scan(
                        s,
                        idx + 3,
                        ScanState { column: column + 2, quote: Some(ch), triple: true, ..st },
                    )
                } else {
                    scan(s, idx + 1, ScanState { column, quote: Some(ch), triple: false, ..st })
                }
            } else if ch == '(' || ch == '[' || ch == '{' {
                scan(
                    s,
                    idx + 1,
                    ScanState { column, stack: st.stack.push((ch, st.line, column)), ..st },
                )
            } else if ch == ')' || ch == ']' || ch == '}' {
                if st.stack.len() == 0 {
                    Some(
                        error_at(
                            s,
                            "Unmatched closing delimiter: '"@ + seq![ch] + "'"@,
                            st.line,
                            column,
                        ),
                    )
                } else if st.stack.last().0 != opener_of(ch) {
                    Some(
                        error_at(
                            s,
                            "Mismatched delimiter: found '"@ + seq![ch] + "'"@,
                            st.line,
                            column,
                        ),
                    )
                } else {
                    scan(s, idx + 1, ScanState { column, stack: st.stack.drop_last(), ..st })
                }
            } else {
                scan(s, idx + 1, ScanState { column, ..st })
            }
        }
    }
}

/// The first basic syntax problem of `source`, if any.
pub open spec fn syntax_error_of(source: Seq<char>) -> Option<SyntaxErrorModel> {
    scan(
        source,
        0,
        ScanState { stack: Seq::empty(), line: 1, column: 0, quote: None, triple: false, escaped: false },
    )
}

/// `prefix`, then `c`, then `suffix`.
fn message_with(prefix: &str, c: char, suffix: &str) -> (r: String)
    ensures
        r@ == prefix@ + seq![c] + suffix@,
{
    let mut v = chars_of(prefix);
    v.push(c);
    let tail = chars_of(suffix);
    let mut i: usize = 0;
    let ghost base = v@;
    while i < tail.len()
        invariant
            i <= tail@.len(),
            v@ == base + tail@.subrange(0, i as int),
        decreases tail.len() - i,
    {
        v.push(tail[i]);
        assert(tail@.subrange(0, i + 1) =~= tail@.subrange(0, i as int).push(tail@[i as int]));
        i += 1;
    }
    assert(tail@.subrange(0, i as int) =~= tail@);
    string_of(v.as_slice())
}

/// Line `k` (from 1) of the source whose lines are `ls`, as a string.
fn nth_line_exec(ls: &Vec<Vec<char>>, k: usize) -> (r: Option<String>)
    ensures
        r matches Some(t) ==> 1 <= k <= ls@.len() && t@ == ls@[k - 1]@,
        r is None ==> !(1 <= k <= ls@.len()),
{
    if k >= 1 && k <= ls.len() {
        Some(string_of(ls[k - 1].as_slice()))
    } else {
        None
    }
}

fn make_error(source: &[char], message: String, line: usize, column: usize) -> (r: SyntaxErrorInfo)
    ensures
        r@ == error_at(source@, message@, line as int, column as int),
{
    let ls = lines_of(source);
    let text = nth_line_exec(&ls, line);
    proof {
        if 1 <= line <= ls@.len() {
            assert(views(ls@)[line - 1] == ls@[line - 1]@);
        }
    }
    SyntaxErrorInfo { message, line, column, text }
}

/// The first basic syntax problem of `source`: a closing bracket without an
/// opener or of the wrong kind, else the innermost unclosed bracket, else an
/// unterminated string literal. Lines and columns count from 1.
pub fn detect_syntax_error_chars(source: &[char]) -> (r: Option<SyntaxErrorInfo>)
    requires
        source@.len() < usize::MAX,
    ensures
        r matches Some(e) ==> syntax_error_of(source@) == Some(e@),
        r is None ==> syntax_error_of(source@) is None,
{
    let n = source.len();
    let mut stack: Vec<(char, usize, usize)> = Vec::new();
    let mut line: usize = 1;
    let mut column: usize = 0;
    let mut idx: usize = 0;
    let mut quote: Option<char> = None;
    let mut triple = false;
    let mut escaped = false;
    assert(stack_model(stack@) =~= Seq::<(char, int, int)>::empty());
    while idx < n
        invariant
            n == source@.len(),
            n < usize::MAX,
            idx <= n,
            line <= idx + 1,
            column <= idx,
            syntax_error_of(source@) == scan(
                source@,
                idx as int,
                ScanState {
                    stack: stack_model(stack@),
                    line: line as int,
                    column: column as int,
                    quote,
                    triple,
                    escaped,
                },
            ),
        decreases n - idx,
    {
        let ch = source[idx];
        if ch == '\n' {
            line += 1;
            column = 0;
            escaped = false;
            idx += 1;
            continue;
        }
        column += 1;
        match quote {
            Some(q) => {
                if escaped {
                    escaped = false;
                    idx += 1;
                } else if ch == '\\' {
                    escaped = true;
                    idx += 1;
                } else if triple {
                    if ch == q && idx + 2 < n && source[idx + 1] == q && source[idx + 2] == q {
                        quote = None;
                        triple = false;
                        column += 2;
                        idx += 3;
                    } else {
                        idx += 1;
                    }
                } else {
                    if ch == q {
                        quote = None;
                    }
                    idx += 1;
                }
                continue;
            },
            None => {},
        }
        if ch == '#' {
            idx += 1;
            let ghost start = idx as int;
            while idx < n && source[idx] != '\n'
                invariant
                    n == source@.len(),
                    start <= idx <= n,
                    next_newline(source@, start) == next_newline(source@, idx as int),
                decreases n - idx,
            {
                idx += 1;
            }
            continue;
        }
        if ch == '\'' || ch == '"' {
            let is_triple = idx + 2 < n && source[idx + 1] == ch && source[idx + 2] == ch;
            quote = Some(ch);
            triple = is_triple;
            if is_triple {
                idx += 3;
                column += 2;
            } else {
                idx += 1;
            }
            continue;
        }
        if ch == '(' || ch == '[' || ch == '{' {
            let ghost before = stack@;
            stack.push((ch, line, column));
            assert(stack_model(stack@) =~= stack_model(before).push((ch, line as int, column as int)));
            idx += 1;
            continue;
        }
        if ch == ')' || ch == ']' || ch == '}' {
            let expected = if ch == ')' {
                '('
            } else if ch == ']' {
                '['
            } else {
                '{'
            };
            let ghost before = stack@;
            match stack.pop() {
                Some(top) => {
                    assert(before =~= stack@.push(top));
                    assert(stack_model(before) =~= stack_model(stack@).push((top.0, top.1 as int, top.2 as int)));
                    assert(stack_model(before).drop_last() =~= stack_model(stack@));
                    if top.0 != expected {
                        let message = message_with("Mismatched delimiter: found '", ch, "'");
                        return Some(make_error(source, message, line, column));
                    }
                },
                None => {
                    let message = message_with("Unmatched closing delimiter: '", ch, "'");
                    return Some(make_error(source, message, line, column));
                },
            }
            idx += 1;
            continue;
        }
        idx += 1;
    }
    let ghost sv = stack_model(stack@);
    match stack.pop() {
        Some(top) => {
            let message = message_with("Unclosed delimiter: '", top.0, "'");
            return Some(make_error(source, message, top.1, top.2));
        },
        None => {},
    }
    match quote {
        Some(q) => {
            let message = message_with("Unclosed string literal: '", q, "'");
            Some(make_error(source, message, line, column))
        },
        None => None,
    }
}

/// The first basic syntax problem of `source`, if any (see
/// [`detect_syntax_error_chars`]).
pub fn detect_syntax_error(source: &str) -> (r: Option<SyntaxErrorInfo>)
    requires
        source@.len() < usize::MAX,
    ensures
        r matches Some(e) ==> syntax_error_of(source@) == Some(e@),
        r is None ==> syntax_error_of(source@) is None,
{
    let chars = chars_of(source);
    detect_syntax_error_chars(chars.as_slice())
}

} // verus!

//! Line-level helpers shared by the config reader and the analyzer.

use vstd::prelude::*;
use crate::text::chars_of;
use crate::text::slice_copy;

verus! {

/// Where the comment of a line starts, scanning from position `i` with the
/// given quoting state: the first `#` outside single and double quoted
/// strings, or the length of the line when there is none. A backslash inside
/// a string escapes the character after it.
pub open spec fn comment_start_from(
    s: Seq<char>,
    i: int,
    in_single: bool,
    in_double: bool,
    escaped: bool,
) -> int
    decreases s.len() - i,
{
    if i < 0 || i >= s.len() {
        s.len() as int
    } else if escaped {
        comment_start_from(s, i + 1, in_single, in_double, false)
    } else {
        let c = s[i];
        if c == '\\' && (in_single || in_double) {
            comment_start_from(s, i + 1, in_single, in_double, true)
        } else if c == '\'' && !in_double {
            comment_start_from(s, i + 1, !in_single, in_double, false)
        } else if c == '"' && !in_single {
            comment_start_from(s, i + 1, in_single, !in_double, false)
        } else if c == '#' && !in_single && !in_double {
            i
        } else {
            comment_start_from(s, i + 1, in_single, in_double, false)
        }
    }
}

/// Where the inline comment of line `s` starts (its length when it has none).
pub open spec fn comment_start(s: Seq<char>) -> int {
    comment_start_from(s, 0, false, false, false)
}

/// The line without its inline comment.
pub open spec fn without_comment(s: Seq<char>) -> Seq<char> {
    s.subrange(0, comment_start(s))
}

/// Whether `c` neither starts a comment nor opens, closes or escapes a
/// string.
pub open spec fn comment_neutral(c: char) -> bool {
    c != '#' && c != '\'' && c != '"' && c != '\\'
}

/// A line without comment or string characters has no comment.
pub proof fn lemma_no_comment(s: Seq<char>, i: int)
    requires
        0 <= i,
        forall|k: int| i <= k < s.len() ==> comment_neutral(#[trigger] s[k]),
    ensures
        comment_start_from(s, i, false, false, false) == s.len(),
    decreases s.len() - i,
{
    if i < s.len() {
        assert(comment_neutral(s[i]));
        lemma_no_comment(s, i + 1);
    }
}

pub proof fn lemma_comment_start_bounds(
    s: Seq<char>,
    i: int,
    in_single: bool,
    in_double: bool,
    escaped: bool,
)
    requires
        0 <= i,
    ensures
        i <= comment_start_from(s, i, in_single, in_double, escaped) <= s.len()
            || (i > s.len() && comment_start_from(s, i, in_single, in_double, escaped) == s.len()),
    decreases s.len() - i,
{
    if i < s.len() {
        let c = s[i];
        if escaped {
            lemma_comment_start_bounds(s, i + 1, in_single, in_double, false);
        } else if c == '\\' && (in_single || in_double) {
            lemma_comment_start_bounds(s, i + 1, in_single, in_double, true);
        } else if c == '\'' && !in_double {
            lemma_comment_start_bounds(s, i + 1, !in_single, in_double, false);
        } else if c == '"' && !in_single {
            lemma_comment_start_bounds(s, i + 1, in_single, !in_double, false);
        } else if c == '#' && !in_single && !in_double {
        } else {
            lemma_comment_start_bounds(s, i + 1, in_single, in_double, false);
        }
    }
}

/// Position where the inline comment of `s` starts.
pub fn comment_start_index(s: &[char]) -> (r: usize)
    ensures
        r == comment_start(s@),
        r <= s@.len(),
{
    proof {
        lemma_comment_start_bounds(s@, 0, false, false, false);
    }
    let n = s.len();
    let mut in_single = false;
    let mut in_double = false;
    let mut escaped = false;
    let mut i: usize = 0;
    while i < n
        invariant
            n == s@.len(),
            i <= n,
            comment_start(s@) == comment_start_from(s@, i as int, in_single, in_double, escaped),
        decreases n - i,
    {
        let c = s[i];
        if escaped {
            escaped = false;
        } else if c == '\\' && (in_single || in_double) {
            escaped = true;
        } else if c == '\'' && !in_double {
            in_single = !in_single;
        } else if c == '"' && !in_single {
            in_double = !in_double;
        } else if c == '#' && !in_single && !in_double {
            return i;
        }
        i += 1;
    }
    i
}

/// The line without its inline comment: everything before the first `#`
/// that is not inside a single or double quoted string.
pub fn strip_inline_comment(line: &str) -> (r: &str)
    ensures
        r@ == without_comment(line@),
{
    let chars = chars_of(line);
    let end = comment_start_index(chars.as_slice());
    line.substring_char(0, end)
}

/// The line without its inline comment, as characters.
pub fn strip_comment_chars(s: &[char]) -> (v: Vec<char>)
    ensures
        v@ == without_comment(s@),
{
    let end = comment_start_index(s);
    slice_copy(s, 0, end)
}

/// Width of the leading run of spaces and tabs, a tab counting four.
pub open spec fn indent_width(s: Seq<char>) -> nat
    decreases s.len(),
{
    if s.len() > 0 && s[0] == ' ' {
        1 + indent_width(s.drop_first())
    } else if s.len() > 0 && s[0] == '\t' {
        4 + indent_width(s.drop_first())
    } else {
        0
    }
}

pub proof fn lemma_indent_width_bound(s: Seq<char>)
    ensures
        indent_width(s) <= 4 * s.len(),
    decreases s.len(),
{
    if s.len() > 0 && (s[0] == ' ' || s[0] == '\t') {
        lemma_indent_width_bound(s.drop_first());
    }
}

/// The indentation of a line, as a `usize` (it cannot exceed one in practice;
/// a width beyond `usize::MAX` is reported as `usize::MAX`).
pub open spec fn indent(s: Seq<char>) -> usize {
    if indent_width(s) <= usize::MAX {
        indent_width(s) as usize
    } else {
        usize::MAX
    }
}

pub fn indent_of(s: &[char]) -> (r: usize)
    ensures
        r == indent(s@),
{
    let n = s.len();
    let mut total: usize = 0;
    let mut saturated = false;
    let mut i: usize = 0;
    assert(s@.subrange(0, n as int) =~= s@);
    while i < n && (s[i] == ' ' || s[i] == '\t')
        invariant
            n == s@.len(),
            i <= n,
            saturated ==> total == usize::MAX && indent_width(s@) > usize::MAX,
            !saturated ==> indent_width(s@) == total + indent_width(
                s@.subrange(i as int, n as int),
            ),
        decreases n - i,
    {
        assert(s@.subrange(i as int, n as int).drop_first() =~= s@.subrange(i + 1, n as int));
        let w: usize = if s[i] == '\t' {
            4
        } else {
            1
        };
        if !saturated {
            if total > usize::MAX - w {
                total = usize::MAX;
                saturated = true;
            } else {
                total = total + w;
            }
        }
        i += 1;
    }
    total
}

/// Width of the leading spaces and tabs of `line`, a tab counting four.
pub fn count_indent(line: &str) -> (r: usize)
    ensures
        r == indent(line@),
{
    let chars = chars_of(line);
    indent_of(chars.as_slice())
}

} // verus!

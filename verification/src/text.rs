//! Character-sequence helpers shared by the analyzer, the config reader and
//! the formatters. Every helper works on `Seq<char>` views and mirrors the
//! behaviour of the corresponding `str` operation of the standard library.

use vstd::prelude::*;

verus! {

// ---------------------------------------------------------------------------
// Character classes
// ---------------------------------------------------------------------------

/// Unicode `White_Space`, the class `char::is_whitespace` tests.
pub open spec fn is_ws(c: char) -> bool {
    let u = c as u32;
    ||| 0x09 <= u <= 0x0D
    ||| u == 0x20
    ||| u == 0x85
    ||| u == 0xA0
    ||| u == 0x1680
    ||| 0x2000 <= u <= 0x200A
    ||| u == 0x2028
    ||| u == 0x2029
    ||| u == 0x202F
    ||| u == 0x205F
    ||| u == 0x3000
}

pub open spec fn is_ascii_digit(c: char) -> bool {
    '0' <= c <= '9'
}

pub open spec fn is_ascii_alpha(c: char) -> bool {
    ('a' <= c <= 'z') || ('A' <= c <= 'Z')
}

pub open spec fn is_ascii_alnum(c: char) -> bool {
    is_ascii_alpha(c) || is_ascii_digit(c)
}

pub fn is_whitespace(c: char) -> (b: bool)
    ensures
        b == is_ws(c),
{
    let u = c as u32;
    (0x09 <= u && u <= 0x0D) || u == 0x20 || u == 0x85 || u == 0xA0 || u == 0x1680 || (0x2000
        <= u && u <= 0x200A) || u == 0x2028 || u == 0x2029 || u == 0x202F || u == 0x205F || u
        == 0x3000
}

pub fn is_alnum(c: char) -> (b: bool)
    ensures
        b == is_ascii_alnum(c),
{
    ('a' <= c && c <= 'z') || ('A' <= c && c <= 'Z') || ('0' <= c && c <= '9')
}

pub fn is_alpha(c: char) -> (b: bool)
    ensures
        b == is_ascii_alpha(c),
{
    ('a' <= c && c <= 'z') || ('A' <= c && c <= 'Z')
}

// ---------------------------------------------------------------------------
// Conversions between `str`/`String` and character vectors
// ---------------------------------------------------------------------------

/// The characters of `s`, in order.
pub fn chars_of(s: &str) -> (v: Vec<char>)
    ensures
        v@ == s@,
{
    let mut v: Vec<char> = Vec::new();
    for c in it: s.chars()
        invariant
            v@ == it.seq().take(it.index() as int),
            it.seq() == s@,
    {
        v.push(c);
    }
    v
}

/// Collects the characters of `v` into a `String` with std's
/// `FromIterator<char>` (`Iterator::collect`); the contract claims that the
/// string holds exactly these characters, in order.
#[verifier::external_body]
pub(crate) fn string_of(v: &[char]) -> (s: String)
    ensures
        s@ == v@,
{
    v.iter().collect()
}

/// A copy of `s[from..to]`.
pub fn slice_copy(s: &[char], from: usize, to: usize) -> (v: Vec<char>)
    requires
        from <= to <= s@.len(),
    ensures
        v@ == s@.subrange(from as int, to as int),
{
    let mut v: Vec<char> = Vec::new();
    let mut i = from;
    while i < to
        invariant
            from <= i <= to <= s@.len(),
            v@ == s@.subrange(from as int, i as int),
        decreases to - i,
    {
        v.push(s[i]);
        i += 1;
    }
    v
}

/// `s[from..to]` as a `String`.
pub fn string_range(s: &[char], from: usize, to: usize) -> (r: String)
    requires
        from <= to <= s@.len(),
    ensures
        r@ == s@.subrange(from as int, to as int),
{
    let v = slice_copy(s, from, to);
    string_of(v.as_slice())
}

/// Whether two character sequences are equal.
pub fn chars_eq(a: &[char], b: &[char]) -> (r: bool)
    ensures
        r == (a@ == b@),
{
    if a.len() != b.len() {
        return false;
    }
    let mut i: usize = 0;
    while i < a.len()
        invariant
            a@.len() == b@.len(),
            i <= a@.len(),
            a@.subrange(0, i as int) == b@.subrange(0, i as int),
        decreases a.len() - i,
    {
        if a[i] != b[i] {
            assert(a@[i as int] != b@[i as int]);
            return false;
        }
        assert(a@.subrange(0, i + 1) =~= a@.subrange(0, i as int).push(a@[i as int]));
        assert(b@.subrange(0, i + 1) =~= b@.subrange(0, i as int).push(b@[i as int]));
        i += 1;
    }
    assert(a@ =~= a@.subrange(0, i as int));
    assert(b@ =~= b@.subrange(0, i as int));
    true
}

// ---------------------------------------------------------------------------
// Prefixes, suffixes and searching
// ---------------------------------------------------------------------------

pub open spec fn starts_with(s: Seq<char>, p: Seq<char>) -> bool {
    p.len() <= s.len() && s.subrange(0, p.len() as int) == p
}

pub open spec fn ends_with(s: Seq<char>, p: Seq<char>) -> bool {
    p.len() <= s.len() && s.subrange(s.len() - p.len(), s.len() as int) == p
}

/// Whether `p` occurs in `s` starting at position `i`.
pub open spec fn occurs_at(s: Seq<char>, p: Seq<char>, i: int) -> bool {
    0 <= i && i + p.len() <= s.len() && s.subrange(i, i + p.len()) == p
}

/// First position at or after `i` where `p` occurs in `s`.
pub open spec fn find_from(s: Seq<char>, p: Seq<char>, i: int) -> Option<int>
    decreases s.len() + 1 - i,
{
    if i < 0 || i + p.len() > s.len() {
        None
    } else if occurs_at(s, p, i) {
        Some(i)
    } else {
        find_from(s, p, i + 1)
    }
}

/// `str::find`, counted in characters.
pub open spec fn find(s: Seq<char>, p: Seq<char>) -> Option<int> {
    find_from(s, p, 0)
}

/// Last position at or before `i` where `p` occurs in `s`.
pub open spec fn rfind_from(s: Seq<char>, p: Seq<char>, i: int) -> Option<int>
    decreases i + 1,
{
    if i < 0 {
        None
    } else if occurs_at(s, p, i) {
        Some(i)
    } else {
        rfind_from(s, p, i - 1)
    }
}

/// `str::rfind`, counted in characters.
pub open spec fn rfind(s: Seq<char>, p: Seq<char>) -> Option<int> {
    rfind_from(s, p, s.len() - p.len())
}

pub open spec fn contains(s: Seq<char>, p: Seq<char>) -> bool {
    find(s, p) is Some
}

pub fn starts_with_at(s: &[char], p: &[char], i: usize) -> (r: bool)
    ensures
        r == occurs_at(s@, p@, i as int),
{
    if i > s.len() || p.len() > s.len() - i {
        return false;
    }
    let n = s.len();
    let mut k: usize = 0;
    while k < p.len()
        invariant
            n == s@.len(),
            i + p@.len() <= s@.len(),
            k <= p@.len(),
            s@.subrange(i as int, i + k) == p@.subrange(0, k as int),
        decreases p.len() - k,
    {
        assert(i + k < s@.len());
        if s[i + k] != p[k] {
            assert(s@.subrange(i as int, i + p@.len())[k as int] != p@[k as int]);
            return false;
        }
        assert(s@.subrange(i as int, i + k + 1) =~= s@.subrange(i as int, i + k).push(
            s@[i + k],
        ));
        assert(p@.subrange(0, k + 1) =~= p@.subrange(0, k as int).push(p@[k as int]));
        k += 1;
    }
    assert(p@.subrange(0, k as int) =~= p@);
    true
}

pub fn starts_with_chars(s: &[char], p: &[char]) -> (r: bool)
    ensures
        r == starts_with(s@, p@),
{
    starts_with_at(s, p, 0)
}

pub fn ends_with_chars(s: &[char], p: &[char]) -> (r: bool)
    ensures
        r == ends_with(s@, p@),
{
    if p.len() > s.len() {
        return false;
    }
    starts_with_at(s, p, s.len() - p.len())
}

/// First occurrence of `p` in `s` at or after `start`.
pub fn find_from_chars(s: &[char], p: &[char], start: usize) -> (r: Option<usize>)
    ensures
        r matches Some(i) ==> find_from(s@, p@, start as int) == Some(i as int),
        r is None ==> find_from(s@, p@, start as int) is None,
{
    let mut i: usize = start;
    if i > s.len() {
        return None;
    }
    while i <= s.len()
        invariant
            find_from(s@, p@, start as int) == find_from(s@, p@, i as int),
        decreases s.len() + 1 - i,
    {
        if p.len() > s.len() - i {
            return None;
        }
        if starts_with_at(s, p, i) {
            return Some(i);
        }
        if i == s.len() {
            assert(find_from(s@, p@, i + 1) is None);
            return None;
        }
        i += 1;
    }
    None
}

pub fn find_chars(s: &[char], p: &[char]) -> (r: Option<usize>)
    ensures
        r matches Some(i) ==> find(s@, p@) == Some(i as int),
        r is None ==> find(s@, p@) is None,
{
    find_from_chars(s, p, 0)
}

pub fn rfind_chars(s: &[char], p: &[char]) -> (r: Option<usize>)
    ensures
        r matches Some(i) ==> rfind(s@, p@) == Some(i as int),
        r is None ==> rfind(s@, p@) is None,
{
    if p.len() > s.len() {
        return None;
    }
    let mut i: usize = s.len() - p.len();
    loop
        invariant
            i + p@.len() <= s@.len(),
            rfind(s@, p@) == rfind_from(s@, p@, i as int),
        decreases i,
    {
        if starts_with_at(s, p, i) {
            return Some(i);
        }
        if i == 0 {
            assert(rfind_from(s@, p@, -1) is None);
            return None;
        }
        i -= 1;
    }
}

pub fn contains_chars(s: &[char], p: &[char]) -> (r: bool)
    ensures
        r == contains(s@, p@),
{
    find_chars(s, p).is_some()
}

/// First index of `c` in `s`.
pub open spec fn index_of(s: Seq<char>, c: char) -> Option<int> {
    find(s, seq![c])
}


// ---------------------------------------------------------------------------
// Trimming
// ---------------------------------------------------------------------------

/// `str::trim_start`.
pub open spec fn trim_start(s: Seq<char>) -> Seq<char>
    decreases s.len(),
{
    if s.len() > 0 && is_ws(s[0]) {
        trim_start(s.drop_first())
    } else {
        s
    }
}

/// `str::trim_end`.
pub open spec fn trim_end(s: Seq<char>) -> Seq<char>
    decreases s.len(),
{
    if s.len() > 0 && is_ws(s.last()) {
        trim_end(s.drop_last())
    } else {
        s
    }
}

/// `str::trim`.
pub open spec fn trim(s: Seq<char>) -> Seq<char> {
    trim_end(trim_start(s))
}

/// Position of the first character of `s` that is not whitespace.
pub fn trim_start_index(s: &[char]) -> (r: usize)
    ensures
        r <= s@.len(),
        trim_start(s@) == s@.subrange(r as int, s@.len() as int),
{
    let n = s.len();
    let mut i: usize = 0;
    assert(s@.subrange(0, n as int) =~= s@);
    while i < n && is_whitespace(s[i])
        invariant
            n == s@.len(),
            i <= n,
            trim_start(s@) == trim_start(s@.subrange(i as int, n as int)),
        decreases n - i,
    {
        assert(s@.subrange(i as int, n as int).drop_first() =~= s@.subrange(i + 1, n as int));
        i += 1;
    }
    i
}

/// Position just past the last character of `s[from..]` that is not whitespace.
pub fn trim_end_index(s: &[char], from: usize) -> (r: usize)
    requires
        from <= s@.len(),
    ensures
        from <= r <= s@.len(),
        trim_end(s@.subrange(from as int, s@.len() as int)) == s@.subrange(from as int, r as int),
{
    let n = s.len();
    let mut j: usize = n;
    while j > from && is_whitespace(s[j - 1])
        invariant
            n == s@.len(),
            from <= j <= n,
            trim_end(s@.subrange(from as int, n as int)) == trim_end(
                s@.subrange(from as int, j as int),
            ),
        decreases j,
    {
        assert(s@.subrange(from as int, j as int).drop_last() =~= s@.subrange(
            from as int,
            j - 1,
        ));
        j -= 1;
    }
    j
}

/// Bounds of the trimmed part of `s`.
pub fn trim_bounds(s: &[char]) -> (r: (usize, usize))
    ensures
        r.0 <= r.1 <= s@.len(),
        trim(s@) == s@.subrange(r.0 as int, r.1 as int),
        trim_start(s@) == s@.subrange(r.0 as int, s@.len() as int),
{
    let a = trim_start_index(s);
    let b = trim_end_index(s, a);
    (a, b)
}

pub fn trim_chars(s: &[char]) -> (v: Vec<char>)
    ensures
        v@ == trim(s@),
{
    let (a, b) = trim_bounds(s);
    slice_copy(s, a, b)
}

pub fn trim_start_chars(s: &[char]) -> (v: Vec<char>)
    ensures
        v@ == trim_start(s@),
{
    let a = trim_start_index(s);
    slice_copy(s, a, s.len())
}

pub fn trim_end_chars(s: &[char]) -> (v: Vec<char>)
    ensures
        v@ == trim_end(s@),
{
    let b = trim_end_index(s, 0);
    assert(s@.subrange(0, s@.len() as int) =~= s@);
    slice_copy(s, 0, b)
}

// ---------------------------------------------------------------------------
// Lines
// ---------------------------------------------------------------------------

/// A line ended by a line feed, without the carriage return just before
/// that line feed, as `str::lines` yields it.
pub open spec fn strip_cr(l: Seq<char>) -> Seq<char> {
    if l.len() > 0 && l.last() == '\r' {
        l.drop_last()
    } else {
        l
    }
}

/// The lines of `s[start..]` while scanning at `i`: each line feed ends a
/// line (a carriage return just before it is dropped), and a final piece
/// without a line feed is a line, as it stands, only when it is not empty.
pub open spec fn lines_from(s: Seq<char>, start: int, i: int) -> Seq<Seq<char>>
    decreases s.len() - i,
{
    if i < start || i >= s.len() {
        if start >= s.len() {
            Seq::empty()
        } else {
            seq![s.subrange(start, s.len() as int)]
        }
    } else if s[i] == '\n' {
        seq![strip_cr(s.subrange(start, i))] + lines_from(s, i + 1, i + 1)
    } else {
        lines_from(s, start, i + 1)
    }
}

/// `str::lines`: the pieces of `s` between line feeds, a final empty piece
/// omitted; a carriage return is dropped only where it comes just before a
/// line feed, so a final piece keeps its own.
pub open spec fn lines(s: Seq<char>) -> Seq<Seq<char>> {
    lines_from(s, 0, 0)
}

/// The views of a vector of character vectors.
pub open spec fn views(v: Seq<Vec<char>>) -> Seq<Seq<char>> {
    Seq::new(v.len(), |i: int| v[i]@)
}

pub fn strip_cr_chars(s: &[char], from: usize, to: usize) -> (v: Vec<char>)
    requires
        from <= to <= s@.len(),
    ensures
        v@ == strip_cr(s@.subrange(from as int, to as int)),
{
    if to > from && s[to - 1] == '\r' {
        assert(s@.subrange(from as int, to as int).drop_last() =~= s@.subrange(
            from as int,
            to - 1,
        ));
        slice_copy(s, from, to - 1)
    } else {
        slice_copy(s, from, to)
    }
}

pub proof fn lemma_lines_from_bounded(s: Seq<char>, start: int, i: int)
    requires
        0 <= start <= i,
    ensures
        forall|k: int|
            0 <= k < lines_from(s, start, i).len() ==> #[trigger] lines_from(s, start, i)[k].len()
                <= s.len(),
    decreases s.len() - i,
{
    if i < start || i >= s.len() {
        if start < s.len() {
            let l = s.subrange(start, s.len() as int);
            assert(lines_from(s, start, i) == seq![l]);
        }
    } else if s[i] == '\n' {
        let l = s.subrange(start, i);
        assert(strip_cr(l).len() <= l.len());
        lemma_lines_from_bounded(s, i + 1, i + 1);
        let rest = lines_from(s, i + 1, i + 1);
        let all = seq![strip_cr(s.subrange(start, i))] + rest;
        assert(lines_from(s, start, i) == all);
        assert forall|k: int| 0 <= k < all.len() implies #[trigger] all[k].len() <= s.len() by {
            if k > 0 {
                assert(all[k] == rest[k - 1]);
            }
        }
    } else {
        lemma_lines_from_bounded(s, start, i + 1);
        assert(lines_from(s, start, i) == lines_from(s, start, i + 1));
    }
}

pub proof fn lemma_lines_from_count(s: Seq<char>, start: int, i: int)
    requires
        0 <= start <= i,
    ensures
        lines_from(s, start, i).len() <= if start <= s.len() { s.len() - start } else { 0 },
    decreases s.len() - i,
{
    if i < start || i >= s.len() {
    } else if s[i] == '\n' {
        lemma_lines_from_count(s, i + 1, i + 1);
    } else {
        lemma_lines_from_count(s, start, i + 1);
    }
}

/// `s` has at most as many lines as characters.
pub proof fn lemma_lines_count(s: Seq<char>)
    ensures
        lines(s).len() <= s.len(),
{
    lemma_lines_from_count(s, 0, 0);
}

/// Every line of `s` is at most as long as `s`.
pub proof fn lemma_lines_bounded(s: Seq<char>)
    ensures
        forall|k: int| 0 <= k < lines(s).len() ==> #[trigger] lines(s)[k].len() <= s.len(),
{
    lemma_lines_from_bounded(s, 0, 0);
}

/// Scanning over characters that are no line feed leaves the lines as they
/// are.
pub proof fn lemma_lines_from_skip(s: Seq<char>, start: int, i: int, j: int)
    requires
        0 <= start <= i <= j < s.len(),
        forall|k: int| i <= k < j ==> s[k] != '\n',
    ensures
        lines_from(s, start, i) == lines_from(s, start, j),
    decreases j - i,
{
    if i < j {
        lemma_lines_from_skip(s, start, i + 1, j);
    }
}

/// The lines of `a + b` scanned past `a` are those of `b`.
pub proof fn lemma_lines_from_shift(a: Seq<char>, b: Seq<char>, start: int, i: int)
    requires
        0 <= start <= i,
    ensures
        lines_from(a + b, a.len() + start, a.len() + i) == lines_from(b, start, i),
    decreases b.len() - i,
{
    let s = a + b;
    let n = a.len() as int;
    if i >= b.len() {
        if start < b.len() {
            assert(s.subrange(n + start, s.len() as int) =~= b.subrange(start, b.len() as int));
        }
    } else {
        assert(s[n + i] == b[i]);
        if b[i] == '\n' {
            assert(s.subrange(n + start, n + i) =~= b.subrange(start, i));
            lemma_lines_from_shift(a, b, i + 1, i + 1);
        } else {
            lemma_lines_from_shift(a, b, start, i + 1);
        }
    }
}

proof fn lemma_lines_from_concat(a: Seq<char>, b: Seq<char>, start: int, i: int)
    requires
        a.len() > 0,
        a.last() == '\n',
        0 <= start <= i < a.len(),
    ensures
        lines_from(a + b, start, i) == lines_from(a, start, i) + lines(b),
    decreases a.len() - i,
{
    let s = a + b;
    assert(s[i] == a[i]);
    if a[i] == '\n' {
        assert(s.subrange(start, i) =~= a.subrange(start, i));
        if i + 1 < a.len() {
            lemma_lines_from_concat(a, b, i + 1, i + 1);
            assert(lines_from(a + b, start, i) =~= lines_from(a, start, i) + lines(b));
        } else {
            lemma_lines_from_shift(a, b, 0, 0);
            assert(lines_from(a, i + 1, i + 1) =~= Seq::<Seq<char>>::empty());
            assert(lines_from(a + b, start, i) =~= lines_from(a, start, i) + lines(b));
        }
    } else {
        assert(i + 1 < a.len());
        lemma_lines_from_concat(a, b, start, i + 1);
    }
}

/// A text that ends a line (or is empty) followed by another: the lines of
/// the first, then those of the second.
pub proof fn lemma_lines_concat(a: Seq<char>, b: Seq<char>)
    requires
        a.len() == 0 || a.last() == '\n',
    ensures
        lines(a + b) == lines(a) + lines(b),
{
    if a.len() == 0 {
        assert(a + b =~= b);
        assert(lines(a) =~= Seq::<Seq<char>>::empty());
        assert(lines(a) + lines(b) =~= lines(b));
    } else {
        lemma_lines_from_concat(a, b, 0, 0);
    }
}

/// The lines of `s`, as `str::lines` yields them.
pub fn lines_of(s: &[char]) -> (v: Vec<Vec<char>>)
    ensures
        views(v@) == lines(s@),
{
    let n = s.len();
    let mut v: Vec<Vec<char>> = Vec::new();
    let mut start: usize = 0;
    let mut i: usize = 0;
    while i < n
        invariant
            n == s@.len(),
            start <= i <= n,
            lines(s@) == views(v@) + lines_from(s@, start as int, i as int),
        decreases n - i,
    {
        if s[i] == '\n' {
            let line = strip_cr_chars(s, start, i);
            proof {
                assert(views(v@.push(line)) =~= views(v@).push(line@));
                assert(lines_from(s@, start as int, i as int) == seq![line@] + lines_from(
                    s@,
                    i + 1,
                    i + 1,
                ));
                assert(views(v@) + (seq![line@] + lines_from(s@, i + 1, i + 1)) =~= views(
                    v@,
                ).push(line@) + lines_from(s@, i + 1, i + 1));
            }
            v.push(line);
            start = i + 1;
        }
        i += 1;
    }
    if start < n {
        let line = slice_copy(s, start, n);
        proof {
            assert(views(v@.push(line)) =~= views(v@).push(line@));
            assert(views(v@) + seq![line@] =~= views(v@).push(line@));
        }
        v.push(line);
    } else {
        assert(views(v@) + Seq::<Seq<char>>::empty() =~= views(v@));
    }
    v
}

/// The lines of a `str`.
pub fn str_lines(s: &str) -> (v: Vec<Vec<char>>)
    ensures
        views(v@) == lines(s@),
{
    let c = chars_of(s);
    lines_of(c.as_slice())
}

pub proof fn lemma_find_from_bounds(s: Seq<char>, p: Seq<char>, i: int)
    requires
        0 <= i,
    ensures
        find_from(s, p, i) matches Some(k) ==> i <= k && occurs_at(s, p, k)
            && forall|j: int| i <= j < k ==> !occurs_at(s, p, j),
        find_from(s, p, i) is None ==> forall|j: int| i <= j ==> !occurs_at(s, p, j),
    decreases s.len() + 1 - i,
{
    if i + p.len() > s.len() {
    } else if occurs_at(s, p, i) {
    } else {
        lemma_find_from_bounds(s, p, i + 1);
    }
}


/// `str::trim_start_matches` with a single character.
pub open spec fn trim_start_char(s: Seq<char>, c: char) -> Seq<char>
    decreases s.len(),
{
    if s.len() > 0 && s[0] == c {
        trim_start_char(s.drop_first(), c)
    } else {
        s
    }
}

/// `str::trim_end_matches` with a single character.
pub open spec fn trim_end_char(s: Seq<char>, c: char) -> Seq<char>
    decreases s.len(),
{
    if s.len() > 0 && s.last() == c {
        trim_end_char(s.drop_last(), c)
    } else {
        s
    }
}

pub fn trim_start_char_chars(s: &[char], c: char) -> (v: Vec<char>)
    ensures
        v@ == trim_start_char(s@, c),
{
    let n = s.len();
    let mut i: usize = 0;
    assert(s@.subrange(0, n as int) =~= s@);
    while i < n && s[i] == c
        invariant
            n == s@.len(),
            i <= n,
            trim_start_char(s@, c) == trim_start_char(s@.subrange(i as int, n as int), c),
        decreases n - i,
    {
        assert(s@.subrange(i as int, n as int).drop_first() =~= s@.subrange(i + 1, n as int));
        i += 1;
    }
    slice_copy(s, i, n)
}

pub fn trim_end_char_chars(s: &[char], c: char) -> (v: Vec<char>)
    ensures
        v@ == trim_end_char(s@, c),
{
    let n = s.len();
    let mut j: usize = n;
    assert(s@.subrange(0, n as int) =~= s@);
    while j > 0 && s[j - 1] == c
        invariant
            n == s@.len(),
            j <= n,
            trim_end_char(s@, c) == trim_end_char(s@.subrange(0, j as int), c),
        decreases j,
    {
        assert(s@.subrange(0, j as int).drop_last() =~= s@.subrange(0, j - 1));
        j -= 1;
    }
    slice_copy(s, 0, j)
}

/// First position of character `c` in `s`.
pub fn find_char(s: &[char], c: char) -> (r: Option<usize>)
    ensures
        r matches Some(i) ==> index_of(s@, c) == Some(i as int),
        r is None ==> index_of(s@, c) is None,
{
    let pv: Vec<char> = vec![c];
    assert(pv@ =~= seq![c]);
    find_chars(s, pv.as_slice())
}


pub proof fn lemma_rfind_from_bounds(s: Seq<char>, p: Seq<char>, i: int)
    ensures
        rfind_from(s, p, i) matches Some(k) ==> k <= i && occurs_at(s, p, k),
    decreases i + 1,
{
    if i >= 0 && !occurs_at(s, p, i) {
        lemma_rfind_from_bounds(s, p, i - 1);
    }
}

/// The pieces of `s[start..]` between occurrences of `c`, scanning at `i`.
pub open spec fn split_from(s: Seq<char>, c: char, start: int, i: int) -> Seq<Seq<char>>
    decreases s.len() - i,
{
    if i < start || i >= s.len() {
        seq![s.subrange(start, s.len() as int)]
    } else if s[i] == c {
        seq![s.subrange(start, i)] + split_from(s, c, i + 1, i + 1)
    } else {
        split_from(s, c, start, i + 1)
    }
}

/// `str::split` with a single character: always at least one piece.
pub open spec fn split(s: Seq<char>, c: char) -> Seq<Seq<char>> {
    split_from(s, c, 0, 0)
}

pub proof fn lemma_split_from_nonempty(s: Seq<char>, c: char, start: int, i: int)
    ensures
        split_from(s, c, start, i).len() >= 1,
    decreases s.len() - i,
{
    if i < start || i >= s.len() {
    } else if s[i] == c {
        lemma_split_from_nonempty(s, c, i + 1, i + 1);
    } else {
        lemma_split_from_nonempty(s, c, start, i + 1);
    }
}

/// The pieces of `s` between occurrences of `c`.
pub fn split_chars(s: &[char], c: char) -> (v: Vec<Vec<char>>)
    ensures
        views(v@) == split(s@, c),
        v@.len() >= 1,
{
    let n = s.len();
    let mut v: Vec<Vec<char>> = Vec::new();
    let mut start: usize = 0;
    let mut i: usize = 0;
    while i < n
        invariant
            n == s@.len(),
            start <= i <= n,
            split(s@, c) == views(v@) + split_from(s@, c, start as int, i as int),
        decreases n - i,
    {
        if s[i] == c {
            let piece = slice_copy(s, start, i);
            proof {
                assert(views(v@.push(piece)) =~= views(v@).push(piece@));
                assert(views(v@) + (seq![piece@] + split_from(s@, c, i + 1, i + 1)) =~= views(
                    v@,
                ).push(piece@) + split_from(s@, c, i + 1, i + 1));
            }
            v.push(piece);
            start = i + 1;
        }
        i += 1;
    }
    let piece = slice_copy(s, start, n);
    proof {
        assert(views(v@.push(piece)) =~= views(v@).push(piece@));
        assert(views(v@) + seq![piece@] =~= views(v@).push(piece@));
    }
    v.push(piece);
    proof {
        lemma_split_from_nonempty(s@, c, 0, 0);
    }
    v
}

/// The first whitespace-separated token of `s`, as
/// `s.split_whitespace().next()` yields it.
pub open spec fn first_token(s: Seq<char>) -> Option<Seq<char>> {
    let t = trim_start(s);
    if t.len() == 0 {
        None
    } else {
        Some(t.subrange(0, ws_pos(t, 0)))
    }
}

/// Position of the first whitespace character of `s` at or after `i`, or the
/// length of `s`.
pub open spec fn ws_pos(s: Seq<char>, i: int) -> int
    decreases s.len() - i,
{
    if i < 0 || i >= s.len() {
        s.len() as int
    } else if is_ws(s[i]) {
        i
    } else {
        ws_pos(s, i + 1)
    }
}

pub proof fn lemma_ws_pos(s: Seq<char>, i: int)
    requires
        0 <= i <= s.len(),
    ensures
        i <= ws_pos(s, i) <= s.len(),
    decreases s.len() - i,
{
    if i < s.len() && !is_ws(s[i]) {
        lemma_ws_pos(s, i + 1);
    }
}

pub fn first_token_chars(s: &[char]) -> (r: Option<Vec<char>>)
    ensures
        r matches Some(t) ==> first_token(s@) == Some(t@),
        r is None ==> first_token(s@) is None,
{
    let t = trim_start_chars(s);
    if t.len() == 0 {
        return None;
    }
    let n = t.len();
    let mut i: usize = 0;
    while i < n && !is_whitespace(t[i])
        invariant
            n == t@.len(),
            i <= n,
            ws_pos(t@, 0) == ws_pos(t@, i as int),
        decreases n - i,
    {
        i += 1;
    }
    Some(slice_copy(t.as_slice(), 0, i))
}


/// Append the characters of `w` to `v`.
pub fn push_chars(v: &mut Vec<char>, w: &[char])
    ensures
        final(v)@ == old(v)@ + w@,
{
    let mut i: usize = 0;
    let ghost base = v@;
    while i < w.len()
        invariant
            i <= w@.len(),
            v@ == base + w@.subrange(0, i as int),
        decreases w.len() - i,
    {
        v.push(w[i]);
        assert(w@.subrange(0, i + 1) =~= w@.subrange(0, i as int).push(w@[i as int]));
        i += 1;
    }
    assert(w@.subrange(0, i as int) =~= w@);
}

/// Append the characters of `s` to `v`.
pub fn push_str(v: &mut Vec<char>, s: &str)
    ensures
        final(v)@ == old(v)@ + s@,
{
    let w = chars_of(s);
    push_chars(v, w.as_slice());
}

/// The pieces joined with `sep` between them.
pub open spec fn join(pieces: Seq<Seq<char>>, sep: Seq<char>) -> Seq<char>
    decreases pieces.len(),
{
    if pieces.len() == 0 {
        Seq::empty()
    } else if pieces.len() == 1 {
        pieces[0]
    } else {
        join(pieces.drop_last(), sep) + sep + pieces.last()
    }
}

/// Whether the characters of `a` spell the literal `lit`.
pub fn eq_lit(a: &[char], lit: &str) -> (r: bool)
    ensures
        r == (a@ == lit@),
{
    let l = chars_of(lit);
    chars_eq(a, l.as_slice())
}

/// The character vectors of `v` joined with `sep` between them.
pub fn join_chars(v: &Vec<Vec<char>>, sep: &str) -> (r: Vec<char>)
    ensures
        r@ == join(views(v@), sep@),
{
    let ghost sv = views(v@);
    let mut out: Vec<char> = Vec::new();
    let mut i: usize = 0;
    while i < v.len()
        invariant
            sv == views(v@),
            i <= v@.len(),
            out@ == join(sv.subrange(0, i as int), sep@),
        decreases v.len() - i,
    {
        if i > 0 {
            push_str(&mut out, sep);
        }
        push_chars(&mut out, v[i].as_slice());
        proof {
            let p = sv.subrange(0, i + 1);
            assert(p.drop_last() =~= sv.subrange(0, i as int));
            assert(p.last() == v@[i as int]@);
            if i == 0 {
                assert(out@ =~= join(p, sep@));
            }
        }
        i += 1;
    }
    assert(sv.subrange(0, i as int) =~= sv);
    out
}

} // verus!

//! Glob patterns over `/`-separated paths: `*` matches within one path
//! component, `**` across components (and `**/` may match nothing), `?` one
//! character other than `/`.

use vstd::prelude::*;
use crate::text::chars_of;

verus! {

/// Whether `p[pi..]` matches `t[ti..]`.
pub open spec fn glob_from(p: Seq<char>, pi: int, t: Seq<char>, ti: int) -> bool
    decreases p.len() - pi + t.len() - ti,
{
    if pi < 0 || ti < 0 || ti > t.len() {
        false
    } else if pi >= p.len() {
        ti == t.len()
    } else if p[pi] == '*' {
        if pi + 1 < p.len() && p[pi + 1] == '*' {
            ||| glob_from(p, pi + 2, t, ti)
            ||| (pi + 2 < p.len() && p[pi + 2] == '/' && glob_from(p, pi + 3, t, ti))
            ||| (ti < t.len() && glob_from(p, pi, t, ti + 1))
        } else {
            ||| glob_from(p, pi + 1, t, ti)
            ||| (ti < t.len() && t[ti] != '/' && glob_from(p, pi, t, ti + 1))
        }
    } else if p[pi] == '?' {
        ti < t.len() && t[ti] != '/' && glob_from(p, pi + 1, t, ti + 1)
    } else {
        ti < t.len() && p[pi] == t[ti] && glob_from(p, pi + 1, t, ti + 1)
    }
}

/// Whether the whole of `t` matches the pattern `p`.
pub open spec fn glob(p: Seq<char>, t: Seq<char>) -> bool {
    glob_from(p, 0, t, 0)
}

/// Whether row `row` holds the match results of `p[pi..]` against every
/// suffix of `t`.
pub open spec fn row_ok(row: Seq<bool>, p: Seq<char>, pi: int, t: Seq<char>) -> bool {
    &&& row.len() == t.len() + 1
    &&& forall|ti: int| 0 <= ti <= t.len() ==> #[trigger] row[ti] == glob_from(p, pi, t, ti)
}

/// Match results of `p[pi..]` for every suffix of `t`, given those of the
/// three following pattern positions.
fn build_row(
    p: &[char],
    t: &[char],
    pi: usize,
    next1: &Vec<bool>,
    next2: &Vec<bool>,
    next3: &Vec<bool>,
) -> (row: Vec<bool>)
    requires
        pi < p@.len(),
        t@.len() < usize::MAX,
        row_ok(next1@, p@, pi + 1, t@),
        pi + 2 <= p@.len() ==> row_ok(next2@, p@, pi + 2, t@),
        pi + 3 <= p@.len() ==> row_ok(next3@, p@, pi + 3, t@),
    ensures
        row_ok(row@, p@, pi as int, t@),
{
    let pl = p.len();
    let tl = t.len();
    let mut row: Vec<bool> = vec![false; tl + 1];
    let mut k: usize = tl + 1;
    while k > 0
        invariant
            pl == p@.len(),
            tl == t@.len(),
            pi < pl,
            row@.len() == tl + 1,
            k <= tl + 1,
            row_ok(next1@, p@, pi + 1, t@),
            pi + 2 <= pl ==> row_ok(next2@, p@, pi + 2, t@),
            pi + 3 <= pl ==> row_ok(next3@, p@, pi + 3, t@),
            forall|j: int| k <= j <= tl ==> #[trigger] row@[j] == glob_from(p@, pi as int, t@, j),
        decreases k,
    {
        let ti = k - 1;
        let c = p[pi];
        let v: bool = if c == '*' {
            if pi + 1 < pl && p[pi + 1] == '*' {
                next2[ti] || (pi + 2 < pl && p[pi + 2] == '/' && next3[ti]) || (ti < tl
                    && row[ti + 1])
            } else {
                next1[ti] || (ti < tl && t[ti] != '/' && row[ti + 1])
            }
        } else if c == '?' {
            ti < tl && t[ti] != '/' && next1[ti + 1]
        } else {
            ti < tl && c == t[ti] && next1[ti + 1]
        };
        assert(v == glob_from(p@, pi as int, t@, ti as int));
        row.set(ti, v);
        k = ti;
    }
    row
}

/// The row of the empty pattern suffix: only the empty text suffix matches.
fn last_row(p: &[char], t: &[char]) -> (row: Vec<bool>)
    requires
        t@.len() < usize::MAX,
    ensures
        row_ok(row@, p@, p@.len() as int, t@),
{
    let tl = t.len();
    let mut row: Vec<bool> = vec![false; tl + 1];
    row.set(tl, true);
    assert forall|ti: int| 0 <= ti <= t@.len() implies #[trigger] row@[ti] == glob_from(
        p@,
        p@.len() as int,
        t@,
        ti,
    ) by {}
    row
}

/// Whether `text` matches the glob `pattern` as a whole.
pub fn glob_match(pattern: &str, text: &str) -> (r: bool)
    requires
        text@.len() < usize::MAX,
    ensures
        r == glob(pattern@, text@),
{
    let pv = chars_of(pattern);
    let tv = chars_of(text);
    let p = pv.as_slice();
    let t = tv.as_slice();
    let pl = p.len();
    // rows[k] holds the results for pattern position pl - k.
    let mut rows: Vec<Vec<bool>> = Vec::new();
    rows.push(last_row(p, t));
    let mut pi: usize = pl;
    while pi > 0
        invariant
            pl == p@.len(),
            t@.len() < usize::MAX,
            pi <= pl,
            rows@.len() == pl - pi + 1,
            forall|k: int|
                0 <= k < rows@.len() ==> row_ok(#[trigger] rows@[k]@, p@, pl - k, t@),
        decreases pi,
    {
        let q = pi - 1;
        let n = rows.len();
        let r1 = n - 1;
        let r2 = if n >= 2 {
            n - 2
        } else {
            n - 1
        };
        let r3 = if n >= 3 {
            n - 3
        } else {
            n - 1
        };
        assert(row_ok(rows@[r1 as int]@, p@, q + 1, t@));
        assert(q + 2 <= pl ==> row_ok(rows@[r2 as int]@, p@, q + 2, t@));
        assert(q + 3 <= pl ==> row_ok(rows@[r3 as int]@, p@, q + 3, t@));
        let row = build_row(p, t, q, &rows[r1], &rows[r2], &rows[r3]);
        rows.push(row);
        pi = q;
    }
    let top = rows.len() - 1;
    assert(row_ok(rows@[top as int]@, p@, 0, t@));
    rows[top][0]
}

/// Whether a pattern holds no wildcard.
pub open spec fn is_literal(p: Seq<char>) -> bool {
    forall|i: int| 0 <= i < p.len() ==> #[trigger] p[i] != '*' && p[i] != '?'
}

proof fn lemma_literal_from(p: Seq<char>, pi: int, t: Seq<char>, ti: int)
    requires
        is_literal(p),
        0 <= pi <= p.len(),
        0 <= ti <= t.len(),
    ensures
        glob_from(p, pi, t, ti) <==> p.subrange(pi, p.len() as int) == t.subrange(
            ti,
            t.len() as int,
        ),
    decreases p.len() - pi,
{
    if pi < p.len() {
        assert(p[pi] != '*' && p[pi] != '?');
        if ti < t.len() {
            lemma_literal_from(p, pi + 1, t, ti + 1);
            if p.subrange(pi, p.len() as int) == t.subrange(ti, t.len() as int) {
                assert(p.subrange(pi, p.len() as int)[0] == t.subrange(ti, t.len() as int)[0]);
                assert(p.subrange(pi + 1, p.len() as int) =~= p.subrange(pi, p.len() as int).subrange(
                    1,
                    p.len() - pi,
                ));
                assert(t.subrange(ti + 1, t.len() as int) =~= t.subrange(ti, t.len() as int).subrange(
                    1,
                    t.len() - ti,
                ));
            }
            if p[pi] == t[ti] && p.subrange(pi + 1, p.len() as int) == t.subrange(
                ti + 1,
                t.len() as int,
            ) {
                let a = p.subrange(pi, p.len() as int);
                let b = t.subrange(ti, t.len() as int);
                let a1 = p.subrange(pi + 1, p.len() as int);
                let b1 = t.subrange(ti + 1, t.len() as int);
                assert(a.len() == b.len());
                assert forall|k: int| 0 <= k < a.len() implies a[k] == b[k] by {
                    if k > 0 {
                        assert(a[k] == a1[k - 1]);
                        assert(b[k] == b1[k - 1]);
                    }
                }
                assert(a =~= b);
            }
        } else {
            assert(t.subrange(ti, t.len() as int).len() == 0);
        }
    } else {
        assert(p.subrange(pi, p.len() as int) =~= Seq::<char>::empty());
        if ti < t.len() {
            assert(t.subrange(ti, t.len() as int).len() > 0);
        } else {
            assert(t.subrange(ti, t.len() as int) =~= Seq::<char>::empty());
        }
    }
}

/// A pattern without wildcards matches exactly itself.
pub proof fn lemma_literal_matches_itself(p: Seq<char>, t: Seq<char>)
    requires
        is_literal(p),
    ensures
        glob(p, t) <==> p == t,
{
    lemma_literal_from(p, 0, t, 0);
    assert(p.subrange(0, p.len() as int) =~= p);
    assert(t.subrange(0, t.len() as int) =~= t);
}

/// The number of `/` in `s` from position `i` on.
pub open spec fn slashes_from(s: Seq<char>, i: int) -> nat
    decreases s.len() - i,
{
    if i < 0 || i >= s.len() {
        0
    } else {
        slashes_from(s, i + 1) + if s[i] == '/' {
            1nat
        } else {
            0nat
        }
    }
}

/// Whether a pattern holds no `**`.
pub open spec fn no_double_star(p: Seq<char>) -> bool {
    forall|i: int| 0 <= i < p.len() - 1 ==> !(#[trigger] p[i] == '*' && p[i + 1] == '*')
}

proof fn lemma_single_star_from(p: Seq<char>, pi: int, t: Seq<char>, ti: int)
    requires
        no_double_star(p),
        0 <= pi,
        0 <= ti,
        glob_from(p, pi, t, ti),
    ensures
        slashes_from(t, ti) == slashes_from(p, pi),
    decreases p.len() - pi + t.len() - ti,
{
    if pi < p.len() {
        if p[pi] == '*' {
            if pi + 1 < p.len() {
                assert(!(p[pi] == '*' && p[pi + 1] == '*'));
            }
            if glob_from(p, pi + 1, t, ti) {
                lemma_single_star_from(p, pi + 1, t, ti);
            } else {
                lemma_single_star_from(p, pi, t, ti + 1);
            }
        } else {
            lemma_single_star_from(p, pi + 1, t, ti + 1);
        }
    }
}

/// Without `**`, wildcards never match a `/`: a path that matches has as
/// many `/` as the pattern, so `*` and `?` stay within one component.
pub proof fn lemma_single_star_stays_in_component(p: Seq<char>, t: Seq<char>)
    requires
        no_double_star(p),
        glob(p, t),
    ensures
        slashes_from(t, 0) == slashes_from(p, 0),
{
    lemma_single_star_from(p, 0, t, 0);
}

proof fn lemma_double_star_from(t: Seq<char>, ti: int)
    requires
        0 <= ti <= t.len(),
    ensures
        glob_from(seq!['*', '*'], 0, t, ti),
    decreases t.len() - ti,
{
    let p = seq!['*', '*'];
    if ti < t.len() {
        lemma_double_star_from(t, ti + 1);
    } else {
        assert(glob_from(p, 2, t, ti));
    }
}

/// The pattern `**` matches every path.
pub proof fn lemma_double_star_matches_all(t: Seq<char>)
    ensures
        glob(seq!['*', '*'], t),
{
    lemma_double_star_from(t, 0);
}

/// The default inclusion pattern: every Python file, in any directory.
pub open spec fn python_files_pattern() -> Seq<char> {
    seq!['*', '*', '/', '*', '.', 'p', 'y']
}

proof fn lemma_star_py_from(t: Seq<char>, ti: int)
    requires
        0 <= ti <= t.len() - 3,
        forall|j: int| ti <= j < t.len() - 3 ==> t[j] != '/',
        t.subrange(t.len() - 3, t.len() as int) == seq!['.', 'p', 'y'],
    ensures
        glob_from(python_files_pattern(), 3, t, ti),
    decreases t.len() - ti,
{
    let p = python_files_pattern();
    let n = t.len() as int;
    assert(t[n - 3] == '.' && t[n - 2] == 'p' && t[n - 1] == 'y') by {
        assert(t.subrange(n - 3, n)[0] == t[n - 3]);
        assert(t.subrange(n - 3, n)[1] == t[n - 2]);
        assert(t.subrange(n - 3, n)[2] == t[n - 1]);
    }
    if ti == n - 3 {
        assert(glob_from(p, 7, t, n));
        assert(glob_from(p, 6, t, n - 1));
        assert(glob_from(p, 5, t, n - 2));
        assert(glob_from(p, 4, t, n - 3));
    } else {
        lemma_star_py_from(t, ti + 1);
    }
}

proof fn lemma_double_star_skips(t: Seq<char>, ti: int, k: int)
    requires
        0 <= ti <= k <= t.len(),
        glob_from(python_files_pattern(), 0, t, k),
    ensures
        glob_from(python_files_pattern(), 0, t, ti),
    decreases k - ti,
{
    if ti < k {
        lemma_double_star_skips(t, ti + 1, k);
    }
}

/// The default inclusion pattern `**/*.py` matches every file whose name
/// ends in `.py`, at the top level and in any directory below it.
pub proof fn lemma_python_files_match(dir: Seq<char>, name: Seq<char>)
    requires
        forall|i: int| 0 <= i < name.len() ==> name[i] != '/',
    ensures
        glob(python_files_pattern(), name + seq!['.', 'p', 'y']),
        glob(python_files_pattern(), dir + seq!['/'] + name + seq!['.', 'p', 'y']),
{
    let p = python_files_pattern();
    let py = seq!['.', 'p', 'y'];
    let top = name + py;
    assert(top.subrange(top.len() - 3, top.len() as int) =~= py);
    lemma_star_py_from(top, 0);
    assert(glob_from(p, 0, top, 0));
    let nested = dir + seq!['/'] + name + py;
    let k = dir.len() as int;
    assert(nested.subrange(nested.len() - 3, nested.len() as int) =~= py);
    assert forall|j: int| k + 1 <= j < nested.len() - 3 implies nested[j] != '/' by {
        assert(nested[j] == name[j - k - 1]);
    }
    lemma_star_py_from(nested, k + 1);
    assert(nested[k] == '/');
    assert(glob_from(p, 2, nested, k));
    assert(glob_from(p, 0, nested, k));
    lemma_double_star_skips(nested, 0, k);
}

} // verus!

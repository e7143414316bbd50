//! Report rendering: the text and GitHub annotation formats, the rule list
//! and rule explanations, and the per-rule counts that the reports print.

use vstd::prelude::*;
use crate::models::Issue;
use crate::models::IssueModel;
use crate::models::LintSummary;
use crate::models::Severity;
use crate::rules::RuleDoc;
use crate::rules::RuleModel;
use crate::rules::all_rules;
use crate::rules::catalog;
use crate::rules::rule_doc;
use crate::rules::rule_model;
use crate::text::chars_of;
use crate::text::string_of;
use crate::text::push_str;
use crate::text::push_chars;
use crate::text::join;
use crate::text::join_chars;
use crate::text::views;
use crate::linter::text_lt;
use crate::linter::lex_lt_from;

verus! {

// ---------------------------------------------------------------------------
// Numbers
// ---------------------------------------------------------------------------

/// The decimal digit for `d < 10`.
pub open spec fn digit(d: nat) -> char {
    if d == 0 {
        '0'
    } else if d == 1 {
        '1'
    } else if d == 2 {
        '2'
    } else if d == 3 {
        '3'
    } else if d == 4 {
        '4'
    } else if d == 5 {
        '5'
    } else if d == 6 {
        '6'
    } else if d == 7 {
        '7'
    } else if d == 8 {
        '8'
    } else {
        '9'
    }
}

/// The decimal representation of `n`, without leading zeros.
pub open spec fn decimal(n: nat) -> Seq<char>
    decreases n,
{
    if n < 10 {
        seq![digit(n)]
    } else {
        decimal(n / 10).push(digit(n % 10))
    }
}

fn digit_char(d: usize) -> (c: char)
    requires
        d < 10,
    ensures
        c == digit(d as nat),
{
    match d {
        0 => '0',
        1 => '1',
        2 => '2',
        3 => '3',
        4 => '4',
        5 => '5',
        6 => '6',
        7 => '7',
        8 => '8',
        _ => '9',
    }
}

/// Appends the decimal representation of `n`.
pub fn push_decimal(v: &mut Vec<char>, n: usize)
    ensures
        final(v)@ == old(v)@ + decimal(n as nat),
    decreases n,
{
    if n >= 10 {
        push_decimal(v, n / 10);
    }
    let ghost mid = v@;
    v.push(digit_char(n % 10));
    assert(v@ =~= old(v)@ + decimal(n as nat));
}

// ---------------------------------------------------------------------------
// Per-rule counts
// ---------------------------------------------------------------------------

/// Index of the entry for `id` at or after `j`.
pub open spec fn id_index(s: Seq<(Seq<char>, nat)>, id: Seq<char>, j: int) -> Option<int>
    decreases s.len() - j,
{
    if j < 0 || j >= s.len() {
        None
    } else if s[j].0 == id {
        Some(j)
    } else {
        id_index(s, id, j + 1)
    }
}

/// Where `id` goes in the id-ordered entries: before the first entry at or
/// after `j` whose id sorts after it, or at the end.
pub open spec fn id_insert_pos(s: Seq<(Seq<char>, nat)>, id: Seq<char>, j: int) -> int
    decreases s.len() - j,
{
    if j < 0 || j >= s.len() {
        s.len() as int
    } else if text_lt(id, s[j].0) {
        j
    } else {
        id_insert_pos(s, id, j + 1)
    }
}

/// Counts one more occurrence of `id`.
pub open spec fn add_id(s: Seq<(Seq<char>, nat)>, id: Seq<char>) -> Seq<(Seq<char>, nat)> {
    match id_index(s, id, 0) {
        Some(k) => s.update(k, (id, s[k].1 + 1)),
        None => s.insert(id_insert_pos(s, id, 0), (id, 1nat)),
    }
}

/// The rule ids of the first `n` findings with their number of findings,
/// ordered by rule id.
pub open spec fn rule_counts_spec(issues: Seq<IssueModel>, n: int) -> Seq<(Seq<char>, nat)>
    decreases n,
{
    if n <= 0 {
        Seq::empty()
    } else {
        add_id(rule_counts_spec(issues, n - 1), issues[n - 1].rule_id)
    }
}

/// The views of computed rule counts.
pub open spec fn count_models(v: Seq<(String, usize)>) -> Seq<(Seq<char>, nat)> {
    v.map_values(|p: (String, usize)| (p.0@, p.1 as nat))
}

fn text_before(a: &[char], b: &[char]) -> (r: bool)
    ensures
        r == text_lt(a@, b@),
{
    let na = a.len();
    let nb = b.len();
    let mut i: usize = 0;
    loop
        invariant
            na == a@.len(),
            nb == b@.len(),
            i <= na,
            i <= nb,
            lex_lt_from(a@, b@, 0) == lex_lt_from(a@, b@, i as int),
        decreases na - i,
    {
        if i >= na {
            return i < nb;
        }
        if i >= nb {
            return false;
        }
        if a[i] != b[i] {
            return a[i] < b[i];
        }
        i += 1;
    }
}

fn find_count_entry(out: &Vec<(String, usize)>, id: &[char]) -> (r: Option<usize>)
    ensures
        r matches Some(j) ==> j < out@.len() && id_index(count_models(out@), id@, 0) == Some(
            j as int,
        ),
        r is None ==> id_index(count_models(out@), id@, 0) is None,
{
    let ghost s = count_models(out@);
    let mut j: usize = 0;
    while j < out.len()
        invariant
            s == count_models(out@),
            j <= out@.len(),
            id_index(s, id@, 0) == id_index(s, id@, j as int),
        decreases out.len() - j,
    {
        let e = chars_of(out[j].0.as_str());
        assert(s[j as int] == (out@[j as int].0@, out@[j as int].1 as nat));
        if crate::text::chars_eq(e.as_slice(), id) {
            return Some(j);
        }
        j += 1;
    }
    None
}

fn count_insert_pos(out: &Vec<(String, usize)>, id: &[char]) -> (r: usize)
    ensures
        r <= out@.len(),
        r == id_insert_pos(count_models(out@), id@, 0),
{
    let ghost s = count_models(out@);
    let mut p: usize = 0;
    while p < out.len()
        invariant
            s == count_models(out@),
            p <= out@.len(),
            id_insert_pos(s, id@, 0) == id_insert_pos(s, id@, p as int),
        decreases out.len() - p,
    {
        let e = chars_of(out[p].0.as_str());
        assert(s[p as int] == (out@[p as int].0@, out@[p as int].1 as nat));
        if text_before(id, e.as_slice()) {
            return p;
        }
        p += 1;
    }
    p
}

/// The rule ids of the findings, each once and ordered by id, with the
/// number of findings of each.
pub fn rule_counts(issues: &[Issue]) -> (r: Vec<(String, usize)>)
    ensures
        count_models(r@) == rule_counts_spec(issues_view(issues@), issues@.len() as int),
{
    let ghost iv = issues_view(issues@);
    let mut out: Vec<(String, usize)> = Vec::new();
    let mut i: usize = 0;
    let n = issues.len();
    while i < n
        invariant
            n == issues@.len(),
            iv == issues_view(issues@),
            i <= n,
            count_models(out@) == rule_counts_spec(iv, i as int),
            forall|k: int| 0 <= k < out@.len() ==> #[trigger] out@[k].1 <= i,
        decreases n - i,
    {
        let id = chars_of(issues[i].rule_id.as_str());
        assert(iv[i as int] == issues@[i as int]@);
        let ghost s = count_models(out@);
        match find_count_entry(&out, id.as_slice()) {
            Some(j) => {
                let c = out[j].1;
                let name = string_of(id.as_slice());
                out.set(j, (name, c + 1));
                assert(count_models(out@) =~= add_id(s, id@));
            },
            None => {
                let p = count_insert_pos(&out, id.as_slice());
                out.insert(p, (string_of(id.as_slice()), 1));
                assert(count_models(out@) =~= add_id(s, id@));
            },
        }
        i += 1;
    }
    out
}

/// The views of findings held in a slice.
pub open spec fn issues_view(v: Seq<Issue>) -> Seq<IssueModel> {
    v.map_values(|x: Issue| x@)
}

/// One rule with its count, as the reports print it.
pub open spec fn count_entry_text(p: (Seq<char>, nat)) -> Seq<char> {
    p.0 + " ("@ + decimal(p.1) + ")"@
}

/// The total of the counts.
pub open spec fn count_sum(s: Seq<(Seq<char>, nat)>) -> nat
    decreases s.len(),
{
    if s.len() == 0 {
        0
    } else {
        count_sum(s.drop_last()) + s.last().1
    }
}

/// Whether the ids are in strictly increasing text order, so that each
/// occurs once.
pub open spec fn ids_ordered(s: Seq<(Seq<char>, nat)>) -> bool {
    forall|i: int, j: int| 0 <= i < j < s.len() ==> text_lt(#[trigger] s[i].0, #[trigger] s[j].0)
}

proof fn lemma_text_total(a: Seq<char>, b: Seq<char>, i: int)
    requires
        0 <= i <= a.len(),
        i <= b.len(),
        forall|k: int| 0 <= k < i ==> a[k] == b[k],
        a != b,
    ensures
        lex_lt_from(a, b, i) || lex_lt_from(b, a, i),
    decreases a.len() - i,
{
    if i >= a.len() && i >= b.len() {
        assert(a =~= b);
    } else if i < a.len() && i < b.len() && a[i] == b[i] {
        lemma_text_total(a, b, i + 1);
    }
}

proof fn lemma_count_sum_update(s: Seq<(Seq<char>, nat)>, k: int, e: (Seq<char>, nat))
    requires
        0 <= k < s.len(),
    ensures
        count_sum(s.update(k, e)) + s[k].1 == count_sum(s) + e.1,
    decreases s.len(),
{
    if k < s.len() - 1 {
        assert(s.update(k, e).drop_last() =~= s.drop_last().update(k, e));
        lemma_count_sum_update(s.drop_last(), k, e);
    } else {
        assert(s.update(k, e).drop_last() =~= s.drop_last());
    }
}

proof fn lemma_count_sum_insert(s: Seq<(Seq<char>, nat)>, p: int, e: (Seq<char>, nat))
    requires
        0 <= p <= s.len(),
    ensures
        count_sum(s.insert(p, e)) == count_sum(s) + e.1,
    decreases s.len(),
{
    if p < s.len() {
        assert(s.insert(p, e).drop_last() =~= s.drop_last().insert(p, e));
        lemma_count_sum_insert(s.drop_last(), p, e);
    } else {
        assert(s.insert(p, e).drop_last() =~= s);
    }
}

proof fn lemma_id_index(s: Seq<(Seq<char>, nat)>, id: Seq<char>, j: int)
    requires
        0 <= j,
    ensures
        id_index(s, id, j) matches Some(k) ==> j <= k < s.len() && s[k].0 == id,
        id_index(s, id, j) is None ==> forall|k: int| j <= k < s.len() ==> #[trigger] s[k].0 != id,
    decreases s.len() - j,
{
    if j < s.len() && s[j].0 != id {
        lemma_id_index(s, id, j + 1);
    }
}

proof fn lemma_id_insert_pos(s: Seq<(Seq<char>, nat)>, id: Seq<char>, j: int)
    requires
        0 <= j <= s.len(),
    ensures
        j <= id_insert_pos(s, id, j) <= s.len(),
        forall|k: int| j <= k < id_insert_pos(s, id, j) ==> !text_lt(id, #[trigger] s[k].0),
        id_insert_pos(s, id, j) < s.len() ==> text_lt(id, s[id_insert_pos(s, id, j)].0),
    decreases s.len() - j,
{
    if j < s.len() && !text_lt(id, s[j].0) {
        lemma_id_insert_pos(s, id, j + 1);
    }
}

proof fn lemma_add_id(s: Seq<(Seq<char>, nat)>, id: Seq<char>)
    requires
        ids_ordered(s),
    ensures
        ids_ordered(add_id(s, id)),
        count_sum(add_id(s, id)) == count_sum(s) + 1,
{
    lemma_id_index(s, id, 0);
    match id_index(s, id, 0) {
        Some(k) => {
            lemma_count_sum_update(s, k, (id, s[k].1 + 1));
            let t = s.update(k, (id, s[k].1 + 1));
            assert forall|i: int, j: int| 0 <= i < j < t.len() implies text_lt(
                #[trigger] t[i].0,
                #[trigger] t[j].0,
            ) by {
                assert(text_lt(s[i].0, s[j].0));
            }
        },
        None => {
            let p = id_insert_pos(s, id, 0);
            lemma_id_insert_pos(s, id, 0);
            lemma_count_sum_insert(s, p, (id, 1nat));
            let t = s.insert(p, (id, 1nat));
            assert forall|i: int, j: int| 0 <= i < j < t.len() implies text_lt(
                #[trigger] t[i].0,
                #[trigger] t[j].0,
            ) by {
                if j == p {
                    assert(t[i] == s[i]);
                    assert(!text_lt(id, s[i].0));
                    assert(s[i].0 != id);
                    lemma_text_total(s[i].0, id, 0);
                } else if i == p {
                    assert(t[j] == s[j - 1]);
                    if j - 1 > p {
                        assert(text_lt(s[p].0, s[j - 1].0));
                        crate::linter::lemma_text_transitive(id, s[p].0, s[j - 1].0);
                    }
                } else {
                    let si = if i < p {
                        i
                    } else {
                        i - 1
                    };
                    let sj = if j < p {
                        j
                    } else {
                        j - 1
                    };
                    assert(t[i] == s[si]);
                    assert(t[j] == s[sj]);
                    assert(text_lt(s[si].0, s[sj].0));
                }
            }
        },
    }
}

/// The per-rule counts list each rule of the findings once, in id order,
/// and add up to the number of findings.
pub proof fn lemma_rule_counts(issues: Seq<IssueModel>, n: int)
    requires
        0 <= n <= issues.len(),
    ensures
        ids_ordered(rule_counts_spec(issues, n)),
        count_sum(rule_counts_spec(issues, n)) == n,
    decreases n,
{
    if n > 0 {
        lemma_rule_counts(issues, n - 1);
        lemma_add_id(rule_counts_spec(issues, n - 1), issues[n - 1].rule_id);
    }
}

/// The per-rule counts of the findings, as the reports print them.
pub open spec fn rule_counts_text(issues: Seq<IssueModel>) -> Seq<char> {
    join(
        rule_counts_spec(issues, issues.len() as int).map_values(
            |p: (Seq<char>, nat)| count_entry_text(p),
        ),
        ", "@,
    )
}

/// The per-rule counts of the findings, as the reports print them.
pub fn format_rule_counts(issues: &[Issue]) -> (r: Vec<char>)
    ensures
        r@ == rule_counts_text(issues_view(issues@)),
{
    let counts = rule_counts(issues);
    let ghost cm = count_models(counts@);
    let mut pieces: Vec<Vec<char>> = Vec::new();
    let mut i: usize = 0;
    while i < counts.len()
        invariant
            cm == count_models(counts@),
            i <= counts@.len(),
            views(pieces@) == cm.subrange(0, i as int).map_values(
                |p: (Seq<char>, nat)| count_entry_text(p),
            ),
        decreases counts.len() - i,
    {
        let mut e: Vec<char> = Vec::new();
        push_str(&mut e, counts[i].0.as_str());
        push_str(&mut e, " (");
        push_decimal(&mut e, counts[i].1);
        push_str(&mut e, ")");
        assert(cm[i as int] == (counts@[i as int].0@, counts@[i as int].1 as nat));
        let ghost before = pieces@;
        assert(e@ == count_entry_text(cm[i as int]));
        pieces.push(e);
        assert(views(pieces@) =~= views(before).push(count_entry_text(cm[i as int])));
        assert(cm.subrange(0, i + 1).map_values(|p: (Seq<char>, nat)| count_entry_text(p))
            =~= cm.subrange(0, i as int).map_values(|p: (Seq<char>, nat)| count_entry_text(p)).push(
            count_entry_text(cm[i as int]),
        ));
        i += 1;
    }
    assert(cm.subrange(0, i as int) =~= cm);
    join_chars(&pieces, ", ")
}

// ---------------------------------------------------------------------------
// Text report
// ---------------------------------------------------------------------------

/// The headline of one finding: `path:line:column: severity RULE message`.
pub open spec fn issue_headline(x: IssueModel) -> Seq<char> {
    x.path + ":"@ + decimal(x.line as nat) + ":"@ + decimal(x.column as nat) + ": "@
        + x.severity.name() + " "@ + x.rule_id + " "@ + x.message
}

/// The lines of one finding in the text report: the headline, the rule's
/// help and fix when the rule is known, and a blank line.
pub open spec fn issue_text_block(x: IssueModel) -> Seq<Seq<char>> {
    seq![issue_headline(x)] + match rule_model(x.rule_id) {
        Some(r) => seq!["  help: "@ + r.summary, "  fix: "@ + r.remediation],
        None => Seq::empty(),
    } + seq![Seq::<char>::empty()]
}

/// The text-report lines of the first `n` findings.
pub open spec fn text_blocks(issues: Seq<IssueModel>, n: int) -> Seq<Seq<char>>
    decreases n,
{
    if n <= 0 {
        Seq::empty()
    } else {
        text_blocks(issues, n - 1) + issue_text_block(issues[n - 1])
    }
}

/// The closing summary of the text report.
pub open spec fn text_summary_line(s: LintSummary) -> Seq<char> {
    "Scanned "@ + decimal(s.files_scanned as nat) + " file(s), found "@ + decimal(s.errors as nat)
        + " error(s), "@ + decimal(s.warnings as nat) + " warning(s)."@
}

/// The lines of the text report.
pub open spec fn text_report_lines(issues: Seq<IssueModel>, s: LintSummary) -> Seq<Seq<char>> {
    text_blocks(issues, issues.len() as int) + seq![text_summary_line(s)] + if issues.len() > 0 {
        seq!["Rules triggered: "@ + rule_counts_text(issues)]
    } else {
        Seq::empty()
    }
}

fn push_line(lines: &mut Vec<Vec<char>>, l: Vec<char>)
    ensures
        views(final(lines)@) == views(old(lines)@).push(l@),
{
    lines.push(l);
    assert(views(lines@) =~= views(old(lines)@).push(l@));
}

fn lit_line(prefix: &str, rest: &str) -> (r: Vec<char>)
    ensures
        r@ == prefix@ + rest@,
{
    let mut v: Vec<char> = Vec::new();
    push_str(&mut v, prefix);
    push_str(&mut v, rest);
    v
}

/// The text report: each finding with its help, then the totals and the
/// per-rule counts.
pub fn format_text(issues: &[Issue], summary: &LintSummary) -> (r: String)
    ensures
        r@ == join(text_report_lines(issues_view(issues@), *summary), "\n"@),
{
    let ghost iv = issues_view(issues@);
    let mut lines: Vec<Vec<char>> = Vec::new();
    let mut i: usize = 0;
    while i < issues.len()
        invariant
            iv == issues_view(issues@),
            i <= issues@.len(),
            views(lines@) == text_blocks(iv, i as int),
        decreases issues.len() - i,
    {
        let x = &issues[i];
        assert(iv[i as int] == x@);
        let mut head: Vec<char> = Vec::new();
        push_str(&mut head, x.path.as_str());
        push_str(&mut head, ":");
        push_decimal(&mut head, x.line);
        push_str(&mut head, ":");
        push_decimal(&mut head, x.column);
        push_str(&mut head, ": ");
        push_str(&mut head, x.severity.as_str());
        push_str(&mut head, " ");
        push_str(&mut head, x.rule_id.as_str());
        push_str(&mut head, " ");
        push_str(&mut head, x.message.as_str());
        let ghost before = views(lines@);
        push_line(&mut lines, head);
        match rule_doc(x.rule_id.as_str()) {
            Some(d) => {
                push_line(&mut lines, lit_line("  help: ", d.summary));
                push_line(&mut lines, lit_line("  fix: ", d.remediation));
            },
            None => {},
        }
        push_line(&mut lines, Vec::new());
        assert(views(lines@) =~= before + issue_text_block(x@));
        i += 1;
    }
    let mut last: Vec<char> = Vec::new();
    push_str(&mut last, "Scanned ");
    push_decimal(&mut last, summary.files_scanned);
    push_str(&mut last, " file(s), found ");
    push_decimal(&mut last, summary.errors);
    push_str(&mut last, " error(s), ");
    push_decimal(&mut last, summary.warnings);
    push_str(&mut last, " warning(s).");
    push_line(&mut lines, last);
    if issues.len() > 0 {
        let mut t: Vec<char> = Vec::new();
        push_str(&mut t, "Rules triggered: ");
        let counts = format_rule_counts(issues);
        push_chars(&mut t, counts.as_slice());
        push_line(&mut lines, t);
    }
    assert(views(lines@) =~= text_report_lines(iv, *summary));
    let joined = join_chars(&lines, "\n");
    string_of(joined.as_slice())
}

// ---------------------------------------------------------------------------
// GitHub annotations
// ---------------------------------------------------------------------------

/// How one character is written in a GitHub workflow command. Replacing
/// `%`, CR, LF, `:` and `,` one after the other, as the workflow syntax
/// asks, yields the same text, since no replacement brings in a character
/// that a later one replaces.
pub open spec fn escape_char(c: char) -> Seq<char> {
    if c == '%' {
        "%25"@
    } else if c == '\r' {
        "%0D"@
    } else if c == '\n' {
        "%0A"@
    } else if c == ':' {
        "%3A"@
    } else if c == ',' {
        "%2C"@
    } else {
        seq![c]
    }
}

/// A text escaped for a GitHub workflow command.
pub open spec fn escape_spec(t: Seq<char>) -> Seq<char>
    decreases t.len(),
{
    if t.len() == 0 {
        Seq::empty()
    } else {
        escape_spec(t.drop_last()) + escape_char(t.last())
    }
}

/// A text escaped for a GitHub workflow command.
pub fn escape_github(text: &[char]) -> (r: Vec<char>)
    ensures
        r@ == escape_spec(text@),
{
    let mut out: Vec<char> = Vec::new();
    let mut i: usize = 0;
    while i < text.len()
        invariant
            i <= text@.len(),
            out@ == escape_spec(text@.subrange(0, i as int)),
        decreases text.len() - i,
    {
        let c = text[i];
        if c == '%' {
            push_str(&mut out, "%25");
        } else if c == '\r' {
            push_str(&mut out, "%0D");
        } else if c == '\n' {
            push_str(&mut out, "%0A");
        } else if c == ':' {
            push_str(&mut out, "%3A");
        } else if c == ',' {
            push_str(&mut out, "%2C");
        } else {
            out.push(c);
        }
        let ghost p = text@.subrange(0, i + 1);
        assert(p.drop_last() =~= text@.subrange(0, i as int));
        assert(out@ =~= escape_spec(p));
        i += 1;
    }
    assert(text@.subrange(0, i as int) =~= text@);
    out
}

/// The annotation line of one finding.
pub open spec fn github_line(x: IssueModel) -> Seq<char> {
    let level = x.severity.name();
    let message = escape_spec(
        x.rule_id + ": "@ + x.message + match rule_model(x.rule_id) {
            Some(r) => " Fix: "@ + r.remediation,
            None => Seq::empty(),
        },
    );
    let title = escape_spec(
        match rule_model(x.rule_id) {
            Some(r) => r.title,
            None => "owui-lint"@,
        },
    );
    "::"@ + level + " file="@ + escape_spec(x.path) + ",line="@ + decimal(x.line as nat) + ",col="@
        + decimal(x.column as nat) + ",title="@ + title + "::"@ + message
}

/// The annotation lines of the first `n` findings.
pub open spec fn github_lines(issues: Seq<IssueModel>, n: int) -> Seq<Seq<char>>
    decreases n,
{
    if n <= 0 {
        Seq::empty()
    } else {
        github_lines(issues, n - 1).push(github_line(issues[n - 1]))
    }
}

/// The lines of the GitHub report.
pub open spec fn github_report_lines(issues: Seq<IssueModel>, s: LintSummary) -> Seq<Seq<char>> {
    github_lines(issues, issues.len() as int).push(
        "owui-lint: scanned "@ + decimal(s.files_scanned as nat) + " file(s), "@ + decimal(
            s.errors as nat,
        ) + " error(s), "@ + decimal(s.warnings as nat) + " warning(s)."@,
    ) + if issues.len() > 0 {
        seq!["owui-lint: rules triggered -> "@ + rule_counts_text(issues)]
    } else {
        Seq::empty()
    }
}

/// The report as GitHub workflow annotations, then the totals and the
/// per-rule counts.
pub fn format_github(issues: &[Issue], summary: &LintSummary) -> (r: String)
    ensures
        r@ == join(github_report_lines(issues_view(issues@), *summary), "\n"@),
{
    let ghost iv = issues_view(issues@);
    let mut lines: Vec<Vec<char>> = Vec::new();
    let mut i: usize = 0;
    while i < issues.len()
        invariant
            iv == issues_view(issues@),
            i <= issues@.len(),
            views(lines@) == github_lines(iv, i as int),
        decreases issues.len() - i,
    {
        let x = &issues[i];
        assert(iv[i as int] == x@);
        let doc = rule_doc(x.rule_id.as_str());
        let mut raw: Vec<char> = Vec::new();
        push_str(&mut raw, x.rule_id.as_str());
        push_str(&mut raw, ": ");
        push_str(&mut raw, x.message.as_str());
        let mut title_raw: Vec<char> = Vec::new();
        match doc {
            Some(d) => {
                push_str(&mut raw, " Fix: ");
                push_str(&mut raw, d.remediation);
                push_str(&mut title_raw, d.title);
            },
            None => {
                push_str(&mut title_raw, "owui-lint");
            },
        }
        assert(raw@ =~= x@.rule_id + ": "@ + x@.message + match rule_model(x@.rule_id) {
            Some(r) => " Fix: "@ + r.remediation,
            None => Seq::empty(),
        });
        assert(title_raw@ =~= match rule_model(x@.rule_id) {
            Some(r) => r.title,
            None => "owui-lint"@,
        });
        let message = escape_github(raw.as_slice());
        let title = escape_github(title_raw.as_slice());
        let path_chars = chars_of(x.path.as_str());
        let file_path = escape_github(path_chars.as_slice());
        let mut l: Vec<char> = Vec::new();
        push_str(&mut l, "::");
        push_str(&mut l, sarif_level(x.severity));
        push_str(&mut l, " file=");
        push_chars(&mut l, file_path.as_slice());
        push_str(&mut l, ",line=");
        push_decimal(&mut l, x.line);
        push_str(&mut l, ",col=");
        push_decimal(&mut l, x.column);
        push_str(&mut l, ",title=");
        push_chars(&mut l, title.as_slice());
        push_str(&mut l, "::");
        push_chars(&mut l, message.as_slice());
        assert(l@ =~= github_line(x@));
        push_line(&mut lines, l);
        i += 1;
    }
    let mut last: Vec<char> = Vec::new();
    push_str(&mut last, "owui-lint: scanned ");
    push_decimal(&mut last, summary.files_scanned);
    push_str(&mut last, " file(s), ");
    push_decimal(&mut last, summary.errors);
    push_str(&mut last, " error(s), ");
    push_decimal(&mut last, summary.warnings);
    push_str(&mut last, " warning(s).");
    push_line(&mut lines, last);
    if issues.len() > 0 {
        let mut t: Vec<char> = Vec::new();
        push_str(&mut t, "owui-lint: rules triggered -> ");
        let counts = format_rule_counts(issues);
        push_chars(&mut t, counts.as_slice());
        push_line(&mut lines, t);
    }
    assert(views(lines@) =~= github_report_lines(iv, *summary));
    let joined = join_chars(&lines, "\n");
    string_of(joined.as_slice())
}

// ---------------------------------------------------------------------------
// Rule list and explanations
// ---------------------------------------------------------------------------

/// The lines of one rule in the rule list.
pub open spec fn rule_list_block(r: RuleModel) -> Seq<Seq<char>> {
    seq![
        r.id + " ["@ + r.default_severity.name() + "] "@ + r.title,
        "  "@ + r.summary,
        "  fix: "@ + r.remediation,
        "  docs: "@ + r.help_url,
        Seq::<char>::empty(),
    ]
}

/// The rule-list lines of the first `n` catalog entries.
pub open spec fn rule_list_blocks(rs: Seq<RuleModel>, n: int) -> Seq<Seq<char>>
    decreases n,
{
    if n <= 0 {
        Seq::empty()
    } else {
        rule_list_blocks(rs, n - 1) + rule_list_block(rs[n - 1])
    }
}

/// The lines of the rule list.
pub open spec fn rule_list_lines() -> Seq<Seq<char>> {
    seq!["Available rules: "@ + decimal(catalog().len()), Seq::<char>::empty()] + rule_list_blocks(
        catalog(),
        catalog().len() as int,
    )
}

/// Every rule of the catalog with its severity, summary, fix and docs link.
pub fn format_rule_list_text() -> (r: String)
    ensures
        r@ == join(rule_list_lines(), "\n"@),
{
    let rules = all_rules();
    let mut lines: Vec<Vec<char>> = Vec::new();
    let mut head: Vec<char> = Vec::new();
    push_str(&mut head, "Available rules: ");
    push_decimal(&mut head, rules.len());
    push_line(&mut lines, head);
    push_line(&mut lines, Vec::new());
    let ghost start = views(lines@);
    let mut i: usize = 0;
    while i < rules.len()
        invariant
            rules@.len() == catalog().len(),
            forall|k: int| 0 <= k < rules@.len() ==> #[trigger] rules@[k].model() == catalog()[k],
            i <= rules@.len(),
            views(lines@) == start + rule_list_blocks(catalog(), i as int),
        decreases rules.len() - i,
    {
        let d = rules[i];
        assert(rules@[i as int].model() == catalog()[i as int]);
        let ghost before = views(lines@);
        let mut l: Vec<char> = Vec::new();
        push_str(&mut l, d.id);
        push_str(&mut l, " [");
        push_str(&mut l, d.default_severity.as_str());
        push_str(&mut l, "] ");
        push_str(&mut l, d.title);
        push_line(&mut lines, l);
        push_line(&mut lines, lit_line("  ", d.summary));
        push_line(&mut lines, lit_line("  fix: ", d.remediation));
        push_line(&mut lines, lit_line("  docs: ", d.help_url));
        push_line(&mut lines, Vec::new());
        assert(views(lines@) =~= before + rule_list_block(catalog()[i as int]));
        i += 1;
    }
    assert(views(lines@) =~= rule_list_lines());
    let joined = join_chars(&lines, "\n");
    string_of(joined.as_slice())
}

/// The explanation of one rule.
pub open spec fn explanation(r: RuleModel) -> Seq<char> {
    r.id + " ["@ + r.default_severity.name() + "] "@ + r.title + "\n"@ + r.summary + "\nFix: "@
        + r.remediation + "\nDocs: "@ + r.help_url
}

/// The explanation of the rule named `rule_id`, if the catalog has it.
pub fn format_rule_explanation(rule_id: &str) -> (r: Option<String>)
    ensures
        r matches Some(t) ==> rule_model(rule_id@) matches Some(m) && t@ == explanation(m),
        r is None ==> rule_model(rule_id@) is None,
{
    match rule_doc(rule_id) {
        None => None,
        Some(d) => {
            let mut v: Vec<char> = Vec::new();
            push_str(&mut v, d.id);
            push_str(&mut v, " [");
            push_str(&mut v, d.default_severity.as_str());
            push_str(&mut v, "] ");
            push_str(&mut v, d.title);
            push_str(&mut v, "\n");
            push_str(&mut v, d.summary);
            push_str(&mut v, "\nFix: ");
            push_str(&mut v, d.remediation);
            push_str(&mut v, "\nDocs: ");
            push_str(&mut v, d.help_url);
            Some(string_of(v.as_slice()))
        },
    }
}

/// The SARIF level of a severity.
pub fn sarif_level(severity: Severity) -> (r: &'static str)
    ensures
        r@ == severity.name(),
{
    if severity == Severity::Error {
        "error"
    } else {
        "warning"
    }
}

/// The help text of a rule in a SARIF report: its remediation, then where
/// to read more.
pub fn sarif_help(rule: &RuleDoc) -> (r: String)
    ensures
        r@ == rule.remediation@ + " See: "@ + rule.help_url@,
{
    let mut v: Vec<char> = Vec::new();
    push_str(&mut v, rule.remediation);
    push_str(&mut v, " See: ");
    push_str(&mut v, rule.help_url);
    string_of(v.as_slice())
}

} // verus!

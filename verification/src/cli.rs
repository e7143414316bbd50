//! The decisions of the command line around a lint run: the exit status for
//! a `--fail-on` policy, the unknown rule ids of a configuration, and how a
//! rule id typed by the user is normalized.

use vstd::prelude::*;
use crate::models::LintSummary;
use crate::models::ascii_upper;
use crate::config::Config;
use crate::config::upper_chars;
use crate::rules::is_known;
use crate::rules::is_known_rule;
use crate::text::chars_of;
use crate::text::string_of;
use crate::text::trim;
use crate::text::trim_chars;
use crate::text::join;
use crate::text::push_str;
use crate::text::push_chars;
use crate::text::join_chars;
use crate::text::views;
use crate::linter::text_lt;
use crate::linter::lex_lt_from;

verus! {

/// When a lint run counts as failed.
#[derive(Debug, Clone, Copy, PartialEq, Eq, Structural)]
pub enum FailOn {
    Never,
    Error,
    Warning,
}

/// The exit status of a lint run: 1 when the failure condition is met, 0
/// otherwise. `Error` fails on any error, `Warning` on any finding.
pub open spec fn exit_status(fail_on: FailOn, s: LintSummary) -> i32 {
    match fail_on {
        FailOn::Never => 0,
        FailOn::Warning => if s.errors > 0 || s.warnings > 0 {
            1
        } else {
            0
        },
        FailOn::Error => if s.errors > 0 {
            1
        } else {
            0
        },
    }
}

/// The exit status of a lint run under a `--fail-on` policy.
pub fn exit_code_for(fail_on: FailOn, summary: &LintSummary) -> (r: i32)
    ensures
        r == exit_status(fail_on, *summary),
{
    match fail_on {
        FailOn::Never => 0,
        FailOn::Warning => if summary.errors > 0 || summary.warnings > 0 {
            1
        } else {
            0
        },
        FailOn::Error => if summary.errors > 0 {
            1
        } else {
            0
        },
    }
}

/// A rule id as typed by the user, trimmed and in upper case.
pub fn normalize_rule_id(raw: &str) -> (r: String)
    ensures
        r@ == ascii_upper(trim(raw@)),
{
    let c = chars_of(raw);
    let t = trim_chars(c.as_slice());
    let u = upper_chars(t.as_slice());
    string_of(u.as_slice())
}

/// The ids among the first `n` overrides that name no rule of the catalog.
pub open spec fn unknown_ids(
    pairs: Seq<(Seq<char>, crate::models::SeverityOverride)>,
    n: int,
) -> Seq<Seq<char>>
    decreases n,
{
    if n <= 0 {
        Seq::empty()
    } else {
        unknown_ids(pairs, n - 1) + if !is_known(pairs[n - 1].0) {
            seq![pairs[n - 1].0]
        } else {
            Seq::empty()
        }
    }
}

/// Where `x` goes among ids in text order: before the first id at or after
/// `j` that sorts after it, or at the end.
pub open spec fn id_pos(s: Seq<Seq<char>>, x: Seq<char>, j: int) -> int
    decreases s.len() - j,
{
    if j < 0 || j >= s.len() {
        s.len() as int
    } else if text_lt(x, s[j]) {
        j
    } else {
        id_pos(s, x, j + 1)
    }
}

/// Ids in text order, as an ordered map of them lists its keys.
pub open spec fn sort_ids(s: Seq<Seq<char>>) -> Seq<Seq<char>>
    decreases s.len(),
{
    if s.len() == 0 {
        s
    } else {
        let r = sort_ids(s.drop_last());
        r.insert(id_pos(r, s.last(), 0), s.last())
    }
}

fn text_before(a: &[char], b: &[char]) -> (r: bool)
    ensures
        r == text_lt(a@, b@),
{
    let na = a.len();
    let nb = b.len();
    let mut i: usize = 0;
    loop
        invariant
            na == a@.len(),
            nb == b@.len(),
            i <= na,
            i <= nb,
            lex_lt_from(a@, b@, 0) == lex_lt_from(a@, b@, i as int),
        decreases na - i,
    {
        if i >= na {
            return i < nb;
        }
        if i >= nb {
            return false;
        }
        if a[i] != b[i] {
            return a[i] < b[i];
        }
        i += 1;
    }
}

fn id_insert_index(out: &Vec<Vec<char>>, x: &[char]) -> (r: usize)
    ensures
        r <= out@.len(),
        r == id_pos(views(out@), x@, 0),
{
    let ghost om = views(out@);
    let mut j: usize = 0;
    while j < out.len()
        invariant
            om == views(out@),
            j <= out@.len(),
            id_pos(om, x@, 0) == id_pos(om, x@, j as int),
        decreases out.len() - j,
    {
        assert(om[j as int] == out@[j as int]@);
        if text_before(x, out[j].as_slice()) {
            return j;
        }
        j += 1;
    }
    j
}

/// The rule ids of the configuration's overrides that name no rule of the
/// catalog, in text order.
pub fn unknown_rule_overrides(config: &Config) -> (r: Vec<Vec<char>>)
    ensures
        views(r@) == sort_ids(
            unknown_ids(config.rule_overrides@, config.rule_overrides@.len() as int),
        ),
{
    let entries = &config.rule_overrides.entries;
    let ghost pairs = config.rule_overrides@;
    let mut out: Vec<Vec<char>> = Vec::new();
    let mut i: usize = 0;
    while i < entries.len()
        invariant
            entries == &config.rule_overrides.entries,
            pairs == config.rule_overrides@,
            pairs.len() == entries@.len(),
            forall|k: int| 0 <= k < entries@.len() ==> #[trigger] pairs[k].0 == entries@[k].rule_id@,
            i <= entries@.len(),
            views(out@) == sort_ids(unknown_ids(pairs, i as int)),
        decreases entries.len() - i,
    {
        let id = entries[i].rule_id.as_str();
        assert(pairs[i as int].0 == id@);
        if !is_known_rule(id) {
            let x = chars_of(id);
            let ghost om = views(out@);
            let j = id_insert_index(&out, x.as_slice());
            out.insert(j, x);
            proof {
                let u = unknown_ids(pairs, i + 1);
                assert(u.drop_last() =~= unknown_ids(pairs, i as int));
                assert(views(out@) =~= om.insert(j as int, x@));
            }
        } else {
            assert(unknown_ids(pairs, i + 1) =~= unknown_ids(pairs, i as int));
        }
        i += 1;
    }
    out
}

/// The warning for overrides of unknown rules, if there are any.
pub open spec fn unknown_overrides_message(ids: Seq<Seq<char>>) -> Option<Seq<char>> {
    if ids.len() == 0 {
        None
    } else {
        Some(
            "Warning: unknown rule override(s) in config: "@ + join(ids, ", "@)
                + ". Run `owui-lint rules` to list valid IDs."@,
        )
    }
}

/// The warning for overrides of unknown rules in the configuration, if
/// there are any.
pub fn unknown_overrides_warning(config: &Config) -> (r: Option<String>)
    ensures
        r matches Some(t) ==> unknown_overrides_message(
            sort_ids(unknown_ids(config.rule_overrides@, config.rule_overrides@.len() as int)),
        ) == Some(t@),
        r is None ==> unknown_overrides_message(
            sort_ids(unknown_ids(config.rule_overrides@, config.rule_overrides@.len() as int)),
        ) is None,
{
    let ids = unknown_rule_overrides(config);
    if ids.len() == 0 {
        return None;
    }
    let mut v: Vec<char> = Vec::new();
    push_str(&mut v, "Warning: unknown rule override(s) in config: ");
    let joined = join_chars(&ids, ", ");
    push_chars(&mut v, joined.as_slice());
    push_str(&mut v, ". Run `owui-lint rules` to list valid IDs.");
    Some(string_of(v.as_slice()))
}

} // verus!

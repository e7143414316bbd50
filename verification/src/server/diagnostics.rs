//! Findings as editor diagnostics: 0-indexed positions in UTF-16 units,
//! highlighting from the finding's column to the end of its line.

use vstd::prelude::*;
use crate::models::Issue;
use crate::models::IssueModel;
use crate::models::issue_models;
use crate::models::Severity;
use crate::rules::rule_doc;
use crate::rules::rule_model;
use crate::text::chars_of;
use crate::text::string_of;
use crate::text::lines;
use crate::text::str_lines;
use crate::text::views;
use crate::server::position::utf16_units;
use crate::server::position::utf16_units_upto;
use crate::server::position::char_offset_units;
use crate::server::position::lemma_utf16_prefix;

verus! {

/// The `source` of every diagnostic the server publishes.
pub const DIAGNOSTIC_SOURCE: &'static str = "owui-lint";

/// A diagnostic: a range on one line, the severity, the rule id as code,
/// the rule's documentation link when the rule is known, the source and the
/// message.
#[derive(Debug, Clone, PartialEq, Eq)]
pub struct DiagnosticRecord {
    pub line: u32,
    pub start_character: u32,
    pub end_character: u32,
    pub severity: Severity,
    pub code: String,
    pub help_url: Option<String>,
    pub source: String,
    pub message: String,
}

#[verifier::ext_equal]
pub struct DiagnosticModel {
    pub line: u32,
    pub start_character: u32,
    pub end_character: u32,
    pub severity: Severity,
    pub code: Seq<char>,
    pub help_url: Option<Seq<char>>,
    pub source: Seq<char>,
    pub message: Seq<char>,
}

impl View for DiagnosticRecord {
    type V = DiagnosticModel;

    open spec fn view(&self) -> DiagnosticModel {
        DiagnosticModel {
            line: self.line,
            start_character: self.start_character,
            end_character: self.end_character,
            severity: self.severity,
            code: self.code@,
            help_url: match self.help_url {
                Some(u) => Some(u@),
                None => None,
            },
            source: self.source@,
            message: self.message@,
        }
    }
}

/// `n - 1`, or 0 for 0.
pub open spec fn one_less(n: nat) -> nat {
    if n == 0 {
        0
    } else {
        (n - 1) as nat
    }
}

/// Line `idx` of the text, or nothing past its last line.
pub open spec fn line_at(ls: Seq<Seq<char>>, idx: int) -> Seq<char> {
    if 0 <= idx < ls.len() {
        ls[idx]
    } else {
        Seq::empty()
    }
}

/// Where the highlight of a finding starts, in UTF-16 units.
pub open spec fn start_units(x: IssueModel, ls: Seq<Seq<char>>) -> nat {
    char_offset_units(line_at(ls, one_less(x.line as nat) as int), one_less(x.column as nat))
}

/// Whether the positions of a finding fit the protocol's 32-bit numbers.
pub open spec fn diagnostic_fits(x: IssueModel, ls: Seq<Seq<char>>) -> bool {
    &&& one_less(x.line as nat) <= u32::MAX
    &&& start_units(x, ls) < u32::MAX
    &&& utf16_units(line_at(ls, one_less(x.line as nat) as int)) <= u32::MAX
}

/// The diagnostic of a finding in a text with lines `ls`.
pub open spec fn diagnostic_of(x: IssueModel, ls: Seq<Seq<char>>) -> DiagnosticModel {
    let t = line_at(ls, one_less(x.line as nat) as int);
    let start = start_units(x, ls);
    let line_end = utf16_units(t);
    DiagnosticModel {
        line: one_less(x.line as nat) as u32,
        start_character: start as u32,
        end_character: (if line_end > start + 1 {
            line_end
        } else {
            start + 1
        }) as u32,
        severity: x.severity,
        code: x.rule_id,
        help_url: match rule_model(x.rule_id) {
            Some(r) => Some(r.help_url),
            None => None,
        },
        source: DIAGNOSTIC_SOURCE@,
        message: x.message,
    }
}

/// The diagnostic of one finding in a text with lines `ls`.
pub fn issue_to_diagnostic(issue: &Issue, ls: &Vec<Vec<char>>) -> (r: DiagnosticRecord)
    requires
        diagnostic_fits(issue@, views(ls@)),
    ensures
        r@ == diagnostic_of(issue@, views(ls@)),
{
    let line_idx: usize = if issue.line == 0 {
        0
    } else {
        issue.line - 1
    };
    let empty: Vec<char> = Vec::new();
    let t: &Vec<char> = if line_idx < ls.len() {
        &ls[line_idx]
    } else {
        &empty
    };
    assert(t@ == line_at(views(ls@), line_idx as int));
    let text = string_of(t.as_slice());
    let column_idx: usize = if issue.column == 0 {
        0
    } else {
        issue.column - 1
    };
    let start = crate::server::position::char_to_utf16(text.as_str(), column_idx);
    let line_end = crate::server::position::utf16_len(text.as_str());
    let end = if line_end > start + 1 {
        line_end
    } else {
        start + 1
    };
    let help_url = match rule_doc(issue.rule_id.as_str()) {
        Some(d) => Some(string_of(chars_of(d.help_url).as_slice())),
        None => None,
    };
    let r = DiagnosticRecord {
        line: line_idx as u32,
        start_character: start,
        end_character: end,
        severity: issue.severity,
        code: string_of(chars_of(issue.rule_id.as_str()).as_slice()),
        help_url,
        source: string_of(chars_of(DIAGNOSTIC_SOURCE).as_slice()),
        message: string_of(chars_of(issue.message.as_str()).as_slice()),
    };
    assert(r@ =~= diagnostic_of(issue@, views(ls@)));
    r
}

/// The diagnostics of the findings of a text, one for each, in order.
pub fn issues_to_diagnostics(issues: &[Issue], source: &str) -> (r: Vec<DiagnosticRecord>)
    requires
        forall|i: int|
            0 <= i < issues@.len() ==> diagnostic_fits(#[trigger] issues@[i]@, lines(source@)),
    ensures
        r@.len() == issues@.len(),
        forall|i: int|
            0 <= i < issues@.len() ==> #[trigger] r@[i]@ == diagnostic_of(issues@[i]@, lines(source@)),
{
    let ls = str_lines(source);
    let mut out: Vec<DiagnosticRecord> = Vec::new();
    let mut i: usize = 0;
    while i < issues.len()
        invariant
            views(ls@) == lines(source@),
            forall|k: int|
                0 <= k < issues@.len() ==> diagnostic_fits(#[trigger] issues@[k]@, lines(source@)),
            i <= issues@.len(),
            out@.len() == i,
            forall|k: int|
                0 <= k < i ==> #[trigger] out@[k]@ == diagnostic_of(issues@[k]@, lines(source@)),
        decreases issues.len() - i,
    {
        let d = issue_to_diagnostic(&issues[i], &ls);
        out.push(d);
        i += 1;
    }
    out
}

/// The diagnostics of the findings whose positions fit the protocol's
/// 32-bit numbers, one for each, in order.
pub open spec fn fitting_diagnostics(issues: Seq<IssueModel>, ls: Seq<Seq<char>>) -> Seq<
    DiagnosticModel,
>
    decreases issues.len(),
{
    if issues.len() == 0 {
        Seq::empty()
    } else {
        fitting_diagnostics(issues.drop_last(), ls) + if diagnostic_fits(issues.last(), ls) {
            seq![diagnostic_of(issues.last(), ls)]
        } else {
            Seq::empty()
        }
    }
}

/// The views of diagnostics.
pub open spec fn diagnostic_models(v: Seq<DiagnosticRecord>) -> Seq<DiagnosticModel> {
    v.map_values(|d: DiagnosticRecord| d@)
}

/// Whether the positions of a finding's diagnostic fit the protocol's
/// 32-bit numbers.
pub fn diagnostic_fits_exec(issue: &Issue, ls: &Vec<Vec<char>>) -> (r: bool)
    ensures
        r == diagnostic_fits(issue@, views(ls@)),
{
    let line_idx: usize = if issue.line == 0 {
        0
    } else {
        issue.line - 1
    };
    if line_idx as u64 > 0xffff_ffff {
        return false;
    }
    let empty: Vec<char> = Vec::new();
    let t: &Vec<char> = if line_idx < ls.len() {
        &ls[line_idx]
    } else {
        &empty
    };
    assert(t@ == line_at(views(ls@), line_idx as int));
    assert(t@.subrange(0, t@.len() as int) =~= t@);
    let line_end = match utf16_units_upto(t.as_slice(), t.len()) {
        None => {
            return false;
        },
        Some(u) => u,
    };
    let col: usize = if issue.column == 0 {
        0
    } else {
        issue.column - 1
    };
    if col <= t.len() {
        match utf16_units_upto(t.as_slice(), col) {
            None => false,
            Some(u) => u < 0xffff_ffff,
        }
    } else {
        let extra = col - t.len();
        (extra as u64) < 0xffff_ffff - line_end as u64
    }
}

/// The diagnostics of the findings of a text whose positions fit the
/// protocol's 32-bit numbers, one for each, in order; a finding beyond them
/// gets none.
pub fn issues_to_diagnostics_checked(issues: &[Issue], source: &str) -> (r: Vec<DiagnosticRecord>)
    ensures
        diagnostic_models(r@) == fitting_diagnostics(issue_models(issues@), lines(source@)),
{
    let ghost iv = issue_models(issues@);
    let ls = str_lines(source);
    let mut out: Vec<DiagnosticRecord> = Vec::new();
    let mut i: usize = 0;
    assert(iv.subrange(0, 0) =~= Seq::<IssueModel>::empty());
    while i < issues.len()
        invariant
            iv == issue_models(issues@),
            views(ls@) == lines(source@),
            i <= issues@.len(),
            diagnostic_models(out@) == fitting_diagnostics(iv.subrange(0, i as int), lines(source@)),
        decreases issues.len() - i,
    {
        let ghost before = out@;
        let ghost p = iv.subrange(0, i + 1);
        assert(p.drop_last() =~= iv.subrange(0, i as int));
        assert(p.last() == issues@[i as int]@);
        if diagnostic_fits_exec(&issues[i], &ls) {
            let d = issue_to_diagnostic(&issues[i], &ls);
            out.push(d);
            assert(diagnostic_models(out@) =~= diagnostic_models(before).push(d@));
        } else {
            assert(diagnostic_models(out@) =~= diagnostic_models(before));
        }
        assert(diagnostic_models(out@) =~= fitting_diagnostics(p, lines(source@)));
        i += 1;
    }
    assert(iv.subrange(0, i as int) =~= iv);
    out
}

} // verus!

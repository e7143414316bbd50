//! Hover text for lines that carry a finding: the rule's documentation.

use vstd::prelude::*;
use crate::models::Issue;
use crate::models::IssueModel;
use crate::rules::rule_doc;
use crate::rules::rule_model;
use crate::text::string_of;
use crate::text::push_str;
use crate::output::issues_view;

verus! {

/// The Markdown shown for a finding: the rule's title, id, summary, fix,
/// documentation link and minimum Open WebUI release, or the rule id and
/// message for an unknown rule.
pub open spec fn render_spec(x: IssueModel) -> Seq<char> {
    match rule_model(x.rule_id) {
        Some(r) => "**"@ + r.title + "** · `"@ + r.id + "`\n\n"@ + r.summary + "\n\n**Fix:** "@
            + r.remediation + "\n\n[Documentation]("@ + r.help_url + ") · Open WebUI ≥ "@
            + r.openwebui_version,
        None => "`"@ + x.rule_id + "`\n\n"@ + x.message,
    }
}

/// The Markdown shown for a finding.
pub fn render_issue(issue: &Issue) -> (r: String)
    ensures
        r@ == render_spec(issue@),
{
    let mut v: Vec<char> = Vec::new();
    match rule_doc(issue.rule_id.as_str()) {
        Some(d) => {
            push_str(&mut v, "**");
            push_str(&mut v, d.title);
            push_str(&mut v, "** · `");
            push_str(&mut v, d.id);
            push_str(&mut v, "`\n\n");
            push_str(&mut v, d.summary);
            push_str(&mut v, "\n\n**Fix:** ");
            push_str(&mut v, d.remediation);
            push_str(&mut v, "\n\n[Documentation](");
            push_str(&mut v, d.help_url);
            push_str(&mut v, ") · Open WebUI ≥ ");
            push_str(&mut v, d.openwebui_version);
        },
        None => {
            push_str(&mut v, "`");
            push_str(&mut v, issue.rule_id.as_str());
            push_str(&mut v, "`\n\n");
            push_str(&mut v, issue.message.as_str());
        },
    }
    string_of(v.as_slice())
}

/// Index of the first finding at or after `k` on 1-indexed line `line`.
pub open spec fn finding_on_line(issues: Seq<IssueModel>, line: nat, k: int) -> Option<int>
    decreases issues.len() - k,
{
    if k < 0 || k >= issues.len() {
        None
    } else if issues[k].line == line {
        Some(k)
    } else {
        finding_on_line(issues, line, k + 1)
    }
}

/// The hover text for 0-indexed editor line `line`: the rendering of the
/// first finding on it, if any.
pub open spec fn hover_spec(issues: Seq<IssueModel>, line: u32) -> Option<Seq<char>> {
    match finding_on_line(issues, line as nat + 1, 0) {
        Some(k) => Some(render_spec(issues[k])),
        None => None,
    }
}

/// The hover text for 0-indexed editor line `line`: the rendering of the
/// first finding on it, if any.
pub fn hover_text(issues: &[Issue], line: u32) -> (r: Option<String>)
    ensures
        r matches Some(t) ==> hover_spec(issues_view(issues@), line) == Some(t@),
        r is None ==> hover_spec(issues_view(issues@), line) is None,
{
    let ghost iv = issues_view(issues@);
    let target: u64 = line as u64 + 1;
    let mut k: usize = 0;
    while k < issues.len()
        invariant
            iv == issues_view(issues@),
            target == line as nat + 1,
            k <= issues@.len(),
            finding_on_line(iv, line as nat + 1, 0) == finding_on_line(iv, line as nat + 1, k as int),
        decreases issues.len() - k,
    {
        assert(iv[k as int] == issues@[k as int]@);
        if issues[k].line as u64 == target {
            return Some(render_issue(&issues[k]));
        }
        k += 1;
    }
    None
}

proof fn lemma_finding_on_line(issues: Seq<IssueModel>, line: nat, k: int)
    requires
        0 <= k,
    ensures
        finding_on_line(issues, line, k) is Some <==> exists|j: int|
            k <= j < issues.len() && (#[trigger] issues[j]).line == line,
        finding_on_line(issues, line, k) matches Some(j) ==> k <= j < issues.len() && issues[j].line
            == line && forall|i: int| k <= i < j ==> (#[trigger] issues[i]).line != line,
    decreases issues.len() - k,
{
    if k < issues.len() {
        lemma_finding_on_line(issues, line, k + 1);
    }
}

/// A hover is shown exactly on the lines that carry a finding, and it
/// renders the first finding of that line.
pub proof fn lemma_hover_on_finding_lines(issues: Seq<IssueModel>, line: u32)
    ensures
        hover_spec(issues, line) is Some <==> exists|k: int|
            0 <= k < issues.len() && (#[trigger] issues[k]).line == line + 1,
        hover_spec(issues, line) is Some ==> exists|k: int|
            0 <= k < issues.len() && (#[trigger] issues[k]).line == line + 1 && hover_spec(issues, line)
                == Some(render_spec(issues[k])) && forall|i: int|
                0 <= i < k ==> (#[trigger] issues[i]).line != line + 1,
{
    lemma_finding_on_line(issues, line as nat + 1, 0);
}

} // verus!

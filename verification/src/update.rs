//! Deciding whether a newer release exists, from the answer of the release
//! service and the running version.

use vstd::prelude::*;
use crate::text::chars_of;
use crate::text::string_of;
use crate::text::slice_copy;

verus! {

/// The text of the string member `key` of the JSON object that `text`
/// holds, as `serde_json` reads it: nothing when `text` is no JSON, holds no
/// object, or the member is missing or not a string. The JSON grammar is not
/// written out here.
pub uninterp spec fn json_string_member(text: Seq<char>, key: Seq<char>) -> Option<Seq<char>>;

/// Reads `text` with `serde_json::from_str` as a `serde_json::Value`, takes
/// its member `key` with `Value::get` and that member's text with
/// `Value::as_str`: the result is the named string member.
#[verifier::external_body]
fn json_string_member_of(text: &str, key: &str) -> (r: Option<String>)
    ensures
        r matches Some(s) ==> json_string_member(text@, key@) == Some(s@),
        r is None ==> json_string_member(text@, key@) is None,
{
    let value: serde_json::Value = match serde_json::from_str(text) {
        Ok(v) => v,
        Err(_) => return None,
    };
    match value.get(key) {
        Some(member) => match member.as_str() {
            Some(t) => Some(t.to_string()),
            None => None,
        },
        None => None,
    }
}

/// A release tag without its leading `v`.
pub open spec fn tag_version(tag: Seq<char>) -> Seq<char> {
    if tag.len() > 0 && tag[0] == 'v' {
        tag.subrange(1, tag.len() as int)
    } else {
        tag
    }
}

/// The version of release tag `tag` when it differs from `current`.
pub fn newer_version(tag: &str, current: &str) -> (r: Option<String>)
    ensures
        tag_version(tag@) != current@ ==> (r matches Some(v) && v@ == tag_version(tag@)),
        tag_version(tag@) == current@ ==> r is None,
{
    let t = chars_of(tag);
    let n = t.len();
    let latest = if n > 0 && t[0] == 'v' {
        slice_copy(t.as_slice(), 1, n)
    } else {
        slice_copy(t.as_slice(), 0, n)
    };
    assert(latest@ =~= tag_version(tag@));
    let c = chars_of(current);
    if crate::text::chars_eq(latest.as_slice(), c.as_slice()) {
        None
    } else {
        Some(string_of(latest.as_slice()))
    }
}

/// The newer version named by the `tag_name` of a release description in
/// JSON: the tag without its leading `v`, when the description has a string
/// `tag_name` and that version differs from `current`.
pub fn latest_version_in(body: &str, current: &str) -> (r: Option<String>)
    ensures
        match json_string_member(body@, "tag_name"@) {
            Some(t) => if tag_version(t) != current@ {
                r matches Some(v) && v@ == tag_version(t)
            } else {
                r is None
            },
            None => r is None,
        },
{
    match json_string_member_of(body, "tag_name") {
        Some(t) => newer_version(t.as_str(), current),
        None => None,
    }
}

} // verus!

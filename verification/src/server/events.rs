//! What the server does when the client opens, changes or closes a
//! document: the change to the state and what is then published.

use vstd::prelude::*;
use crate::text::lines;
use crate::text::chars_of;
use crate::text::chars_eq;
use crate::text::string_of;
use crate::models::strs;
use crate::server::code_actions::DISABLE_RULE_COMMAND;
use crate::server::diagnostics::DiagnosticRecord;
use crate::server::diagnostics::DiagnosticModel;
use crate::server::diagnostics::fitting_diagnostics;
use crate::server::state::ServerState;
use crate::server::state::DocumentModel;
use crate::server::state::linted;
use crate::server::state::document_issues;
use crate::server::state::url_parses;

verus! {

/// A document notification from the client.
pub enum DocumentEvent {
    /// A document was opened with `text` at `version`.
    Opened { uri: String, text: String, version: i32 },
    /// A document moved to `version`; under full synchronisation `text` is
    /// the whole text of the last change, or `None` for an empty change list.
    Changed { uri: String, version: i32, text: Option<String> },
    /// A document was closed.
    Closed { uri: String },
}

/// What the server publishes after an event.
pub enum Publication {
    /// The diagnostics of the document of `uri` at `version`.
    Findings { uri: String, diagnostics: Vec<DiagnosticRecord>, version: i32 },
    /// An empty diagnostic list for `uri`, clearing what was shown.
    Cleared { uri: String },
}

pub enum PublicationModel {
    Findings { uri: Seq<char>, diagnostics: Seq<DiagnosticModel>, version: i32 },
    Cleared { uri: Seq<char> },
}

impl View for Publication {
    type V = PublicationModel;

    open spec fn view(&self) -> PublicationModel {
        match self {
            Publication::Findings { uri, diagnostics, version } => PublicationModel::Findings {
                uri: uri@,
                diagnostics: diagnostics@.map_values(|d: DiagnosticRecord| d@),
                version: *version,
            },
            Publication::Cleared { uri } => PublicationModel::Cleared { uri: uri@ },
        }
    }
}

/// Whether the texts an event brings fit the analyzer.
pub open spec fn event_fits(event: DocumentEvent) -> bool {
    match event {
        DocumentEvent::Opened { text, .. } => text@.len() <= usize::MAX / 8,
        DocumentEvent::Changed { text: Some(t), .. } => t@.len() <= usize::MAX / 8,
        _ => true,
    }
}

/// The documents of `after` are those of `before` except the one of `uri`,
/// and the configuration, root and request bookkeeping are unchanged.
pub open spec fn others_kept(before: ServerState, after: ServerState, uri: Seq<char>) -> bool {
    &&& forall|u: Seq<char>| u != uri ==> #[trigger] after.document_view(u) == before.document_view(u)
    &&& after.config_view() == before.config_view()
    &&& after.root_view() == before.root_view()
    &&& after.refresh_view() == before.refresh_view()
    &&& after.next_id() == before.next_id()
}

/// `after` holds `text` at `version` for `uri`, with the findings of that
/// text under the active configuration.
pub open spec fn stored(
    before: ServerState,
    after: ServerState,
    uri: Seq<char>,
    text: Seq<char>,
    version: i32,
) -> bool {
    &&& after.document_view(uri) matches Some(d) && d.text == text && d.version == version
        && linted(text, d.issues, before.config_view())
    &&& !url_parses(uri) ==> (after.document_view(uri) matches Some(d) && d.issues
        == document_issues(uri, text, before.config_view()))
    &&& others_kept(before, after, uri)
}

/// The diagnostics of a document: one for each finding whose positions fit
/// the protocol's 32-bit numbers, in order.
pub open spec fn document_diagnostics(d: DocumentModel) -> Seq<DiagnosticModel> {
    fitting_diagnostics(d.issues, lines(d.text))
}

/// What is published for the document of `uri` in `s`: its diagnostics at
/// its version, when it is open.
pub open spec fn findings_published(s: ServerState, uri: Seq<char>, r: Option<PublicationModel>) -> bool {
    match s.document_view(uri) {
        Some(d) => r == Some(
            PublicationModel::Findings { uri, diagnostics: document_diagnostics(d), version: d.version },
        ),
        None => r is None,
    }
}

/// The view of an optional publication.
pub open spec fn publication_view(r: Option<Publication>) -> Option<PublicationModel> {
    match r {
        Some(p) => Some(p@),
        None => None,
    }
}

/// The current diagnostics of the document of `uri`, as a publication.
pub fn publish_document(state: &ServerState, uri: String) -> (r: Option<Publication>)
    requires
        state.wf(),
    ensures
        findings_published(*state, uri@, publication_view(r)),
{
    match state.diagnostics(uri.as_str()) {
        Some((diagnostics, version)) => {
            proof {
                let d = state.document_view(uri@).unwrap();
                assert(diagnostics@.map_values(|x: DiagnosticRecord| x@) == document_diagnostics(d));
            }
            Some(Publication::Findings { uri, diagnostics, version })
        },
        None => None,
    }
}

/// Applies a document notification to the state and gives what is to be
/// published: an opened or changed text is linted and its diagnostics
/// published; a change without text only moves the version; a closed
/// document is dropped and its diagnostics cleared.
pub fn handle_event(state: &mut ServerState, event: DocumentEvent) -> (r: Option<Publication>)
    requires
        old(state).wf(),
        event_fits(event),
    ensures
        final(state).wf(),
        match event {
            DocumentEvent::Opened { uri, text, version } => stored(
                *old(state),
                *final(state),
                uri@,
                text@,
                version,
            ) && findings_published(*final(state), uri@, publication_view(r)),
            DocumentEvent::Changed { uri, version, text: Some(text) } => stored(
                *old(state),
                *final(state),
                uri@,
                text@,
                version,
            ) && findings_published(*final(state), uri@, publication_view(r)),
            DocumentEvent::Changed { uri, version, text: None } => {
                &&& others_kept(*old(state), *final(state), uri@)
                &&& final(state).document_view(uri@) == (match old(state).document_view(uri@) {
                    Some(d) => Some(DocumentModel { version, ..d }),
                    None => None,
                })
                &&& r is None
            },
            DocumentEvent::Closed { uri } => {
                &&& others_kept(*old(state), *final(state), uri@)
                &&& final(state).document_view(uri@) is None
                &&& publication_view(r) == Some(PublicationModel::Cleared { uri: uri@ })
            },
        },
{
    match event {
        DocumentEvent::Opened { uri, text, version } => {
            state.upsert(uri.as_str(), text, version);
            publish_document(state, uri)
        },
        DocumentEvent::Changed { uri, version, text } => match text {
            Some(t) => {
                state.upsert(uri.as_str(), t, version);
                publish_document(state, uri)
            },
            None => {
                state.set_version(uri.as_str(), version);
                None
            },
        },
        DocumentEvent::Closed { uri } => {
            state.remove(uri.as_str());
            Some(Publication::Cleared { uri })
        },
    }
}

/// The rule that a workspace command asks to disable, with the workspace
/// root whose configuration file is to change: only for the disable-rule
/// command, with a rule ID as its first argument, in a workspace with a root.
pub fn disable_request(state: &ServerState, command: &str, first_argument: Option<&str>) -> (r: Option<
    (String, String),
>)
    ensures
        r is Some <==> (command@ == DISABLE_RULE_COMMAND@ && first_argument is Some
            && state.root_view() is Some),
        r matches Some(p) ==> first_argument.unwrap()@ == p.0@ && state.root_view() == Some(p.1@),
{
    let name = chars_of(command);
    let expected = chars_of(DISABLE_RULE_COMMAND);
    if !chars_eq(name.as_slice(), expected.as_slice()) {
        return None;
    }
    match first_argument {
        Some(rule_id) => match state.root() {
            Some(root) => Some(
                (string_of(chars_of(rule_id).as_slice()), string_of(chars_of(root).as_slice())),
            ),
            None => None,
        },
        None => None,
    }
}

/// The publications for every open document, in the order of the open
/// documents, after a change of configuration.
pub fn publish_all(state: &ServerState) -> (r: Vec<Option<Publication>>)
    requires
        state.wf(),
    ensures
        r@.len() == state.uris().len(),
        forall|i: int|
            0 <= i < r@.len() ==> findings_published(*state, state.uris()[i], publication_view(
                #[trigger] r@[i],
            )),
{
    let uris = state.open_uris();
    let mut out: Vec<Option<Publication>> = Vec::new();
    let mut i: usize = 0;
    while i < uris.len()
        invariant
            state.wf(),
            strs(uris@) == state.uris(),
            i <= uris@.len(),
            out@.len() == i,
            forall|k: int|
                0 <= k < i ==> findings_published(*state, state.uris()[k], publication_view(
                    #[trigger] out@[k],
                )),
        decreases uris.len() - i,
    {
        assert(state.uris()[i as int] == uris@[i as int]@);
        let p = publish_document(state, string_of(chars_of(uris[i].as_str()).as_slice()));
        out.push(p);
        i += 1;
    }
    out
}

} // verus!

//! The state of the language server: the open documents with their cached
//! findings, the workspace root and configuration, and the bookkeeping of
//! requests the server sends.

use vstd::prelude::*;
use crate::models::Issue;
use crate::models::IssueModel;
use crate::models::issue_models;
use crate::config::Config;
use crate::config::ConfigModel;
use crate::linter::lint_source;
use crate::linter::lint_files_spec;
use crate::analysis::SourceFileModel;
use crate::text::chars_of;
use crate::text::chars_eq;
use crate::text::string_of;
use crate::text::lines;
use crate::server::hover::hover_text;
use crate::server::hover::hover_spec;
use crate::server::completions::Snippet;
use crate::server::completions::snippet_models;
use crate::server::completions::snippets_of;
use crate::server::completions::completion_set;
use crate::server::completions::completion_set_spec;
use crate::server::completions::snippets_for;
use crate::server::code_actions::DiagnosticRef;
use crate::server::code_actions::CodeActionRecord;
use crate::server::code_actions::action_models;
use crate::server::code_actions::actions_spec;
use crate::server::code_actions::ref_models;
use crate::server::code_actions::code_actions;
use crate::server::diagnostics::DiagnosticRecord;
use crate::server::diagnostics::diagnostic_of;
use crate::server::diagnostics::issues_to_diagnostics_checked;
use crate::server::diagnostics::diagnostic_models;
use crate::server::diagnostics::fitting_diagnostics;

verus! {

/// A URL as the `url` crate parses it.
#[verifier::external_type_specification]
#[verifier::external_body]
pub struct ExUrl(url::Url);

/// Whether `url::Url::parse` accepts `s`. The grammar it follows (the WHATWG
/// URL standard) is not written out here.
pub uninterp spec fn url_parses(s: Seq<char>) -> bool;

/// Parses `s` with `url::Url::parse`: a URL exactly when the parser accepts
/// the text. Nothing is stated of the URL's parts.
#[verifier::external_body]
fn parse_url(s: &str) -> (r: Option<url::Url>)
    ensures
        r is Some <==> url_parses(s@),
{
    match url::Url::parse(s) {
        Ok(u) => Some(u),
        Err(_) => None,
    }
}

/// The file-system path of a URL, by `url::Url::to_file_path`, as text
/// (a name that is not UTF-8 is shown with replacement characters, as the
/// linter shows paths). The method does not check the URL's scheme, and
/// which URLs it accepts and the path it gives depend on the platform, so
/// nothing is stated of it.
#[verifier::external_body]
fn url_file_path(u: &url::Url) -> (r: Option<String>) {
    match u.to_file_path() {
        Ok(p) => Some(p.to_string_lossy().into_owned()),
        Err(_) => None,
    }
}

/// The path component of the URL that `url::Url::parse` reads from `s`,
/// where it reads one. It depends on `s` alone; the percent-encoding and
/// normalising rules that produce it are not written out here.
pub uninterp spec fn url_path_of(s: Seq<char>) -> Seq<char>;

/// Parses `s` with `url::Url::parse` and gives the URL's path component by
/// `url::Url::path`: a path exactly when the text parses, and that path is
/// the named one.
#[verifier::external_body]
fn url_path_text(s: &str) -> (r: Option<String>)
    ensures
        r is Some <==> url_parses(s@),
        r matches Some(p) ==> p@ == url_path_of(s@),
{
    match url::Url::parse(s) {
        Ok(u) => Some(u.path().to_string()),
        Err(_) => None,
    }
}

/// The file-system path of a `file:` URI, or `None` for a URI that does not
/// name a local file. Text that is no URL names no file.
pub fn uri_to_file_path(uri: &str) -> (r: Option<String>)
    ensures
        !url_parses(uri@) ==> r is None,
{
    match parse_url(uri) {
        Some(u) => url_file_path(&u),
        None => None,
    }
}

/// The path a document is linted under, given the file-system path its URI
/// names, if any: that path; else the URI's path component when the URI is
/// a URL; else the URI itself.
pub fn document_path(file_path: Option<String>, uri: &str) -> (r: String)
    ensures
        match file_path {
            Some(p) => r@ == p@,
            None => if url_parses(uri@) {
                r@ == url_path_of(uri@)
            } else {
                r@ == uri@
            },
        },
{
    match file_path {
        Some(p) => p,
        None => match url_path_text(uri) {
            Some(p) => p,
            None => string_of(chars_of(uri).as_slice()),
        },
    }
}

/// A path for a document URI: its file-system path, else the URI's path
/// component, else the URI itself. Which file-system path a URL names
/// depends on the platform (`url::Url::to_file_path`), so for a URI that
/// parses only the choice, made by `document_path`, is stated there.
pub fn uri_to_path(uri: &str) -> (r: String)
    ensures
        !url_parses(uri@) ==> r@ == uri@,
{
    document_path(uri_to_file_path(uri), uri)
}

/// An open document: its text, the version the client gave it, and the
/// findings for that text.
#[derive(Debug, Clone)]
pub struct Document {
    pub text: String,
    pub version: i32,
    pub issues: Vec<Issue>,
}

pub struct DocumentModel {
    pub text: Seq<char>,
    pub version: i32,
    pub issues: Seq<IssueModel>,
}

impl View for Document {
    type V = DocumentModel;

    open spec fn view(&self) -> DocumentModel {
        DocumentModel { text: self.text@, version: self.version, issues: issue_models(self.issues@) }
    }
}

/// The findings of a document's text linted as the file at `path`.
pub open spec fn document_issues(path: Seq<char>, text: Seq<char>, cfg: ConfigModel) -> Seq<
    IssueModel,
> {
    lint_files_spec(seq![SourceFileModel { path, contents: Ok(text) }], cfg)
}

/// Whether `issues` are the findings of `text` under `cfg` for some path.
pub open spec fn linted(text: Seq<char>, issues: Seq<IssueModel>, cfg: ConfigModel) -> bool {
    exists|p: Seq<char>| #[trigger] document_issues(p, text, cfg) == issues
}

struct DocEntry {
    uri: String,
    doc: Document,
}

/// The state of the language server.
pub struct ServerState {
    entries: Vec<DocEntry>,
    root: Option<String>,
    config: Config,
    diagnostic_refresh_support: bool,
    next_request_id: i32,
}

/// The document of `uri` in a list of uri and document pairs.
pub open spec fn doc_lookup(docs: Seq<(Seq<char>, DocumentModel)>, uri: Seq<char>) -> Option<
    DocumentModel,
>
    decreases docs.len(),
{
    if docs.len() == 0 {
        None
    } else if docs.last().0 == uri {
        Some(docs.last().1)
    } else {
        doc_lookup(docs.drop_last(), uri)
    }
}

/// No uri occurs twice.
pub open spec fn uris_unique(docs: Seq<(Seq<char>, DocumentModel)>) -> bool {
    forall|i: int, j: int|
        0 <= i < docs.len() && 0 <= j < docs.len() && i != j ==> #[trigger] docs[i].0
            != #[trigger] docs[j].0
}

/// With unique uris, `doc_lookup` finds the entry whose uri matches.
pub proof fn lemma_doc_lookup(docs: Seq<(Seq<char>, DocumentModel)>, uri: Seq<char>)
    requires
        uris_unique(docs),
    ensures
        forall|i: int|
            0 <= i < docs.len() && #[trigger] docs[i].0 == uri ==> doc_lookup(docs, uri) == Some(
                docs[i].1,
            ),
        (forall|i: int| 0 <= i < docs.len() ==> #[trigger] docs[i].0 != uri) ==> doc_lookup(
            docs,
            uri,
        ) is None,
    decreases docs.len(),
{
    if docs.len() > 0 {
        let rest = docs.drop_last();
        assert(uris_unique(rest));
        lemma_doc_lookup(rest, uri);
        assert forall|i: int| 0 <= i < docs.len() && #[trigger] docs[i].0 == uri implies doc_lookup(
            docs,
            uri,
        ) == Some(docs[i].1) by {
            if i < docs.len() - 1 {
                assert(rest[i] == docs[i]);
                assert(docs[i].0 != docs[docs.len() - 1].0);
            }
        }
        if forall|i: int| 0 <= i < docs.len() ==> #[trigger] docs[i].0 != uri {
            assert forall|i: int| 0 <= i < rest.len() implies #[trigger] rest[i].0 != uri by {
                assert(rest[i] == docs[i]);
            }
        }
    }
}

proof fn lemma_docs_update(
    docs: Seq<(Seq<char>, DocumentModel)>,
    i: int,
    entry: (Seq<char>, DocumentModel),
)
    requires
        uris_unique(docs),
        0 <= i < docs.len(),
        entry.0 == docs[i].0,
    ensures
        uris_unique(docs.update(i, entry)),
        doc_lookup(docs.update(i, entry), entry.0) == Some(entry.1),
        forall|u: Seq<char>|
            u != entry.0 ==> #[trigger] doc_lookup(docs.update(i, entry), u) == doc_lookup(docs, u),
{
    let nd = docs.update(i, entry);
    assert forall|a: int, b: int|
        0 <= a < nd.len() && 0 <= b < nd.len() && a != b implies #[trigger] nd[a].0
        != #[trigger] nd[b].0 by {
        assert(docs[a].0 != docs[b].0);
    }
    lemma_doc_lookup(nd, entry.0);
    assert(nd[i] == entry);
    assert forall|u: Seq<char>| u != entry.0 implies #[trigger] doc_lookup(nd, u) == doc_lookup(
        docs,
        u,
    ) by {
        lemma_doc_lookup(nd, u);
        lemma_doc_lookup(docs, u);
        if exists|k: int| 0 <= k < docs.len() && #[trigger] docs[k].0 == u {
            let k = choose|k: int| 0 <= k < docs.len() && #[trigger] docs[k].0 == u;
            assert(nd[k] == docs[k]);
        } else {
            assert forall|k: int| 0 <= k < nd.len() implies #[trigger] nd[k].0 != u by {
                if k != i {
                    assert(nd[k] == docs[k]);
                }
            }
        }
    }
}

proof fn lemma_docs_push(docs: Seq<(Seq<char>, DocumentModel)>, entry: (Seq<char>, DocumentModel))
    requires
        uris_unique(docs),
        forall|k: int| 0 <= k < docs.len() ==> #[trigger] docs[k].0 != entry.0,
    ensures
        uris_unique(docs.push(entry)),
        doc_lookup(docs.push(entry), entry.0) == Some(entry.1),
        forall|u: Seq<char>|
            u != entry.0 ==> #[trigger] doc_lookup(docs.push(entry), u) == doc_lookup(docs, u),
{
    let nd = docs.push(entry);
    assert forall|a: int, b: int|
        0 <= a < nd.len() && 0 <= b < nd.len() && a != b implies #[trigger] nd[a].0
        != #[trigger] nd[b].0 by {
        if a < docs.len() && b < docs.len() {
            assert(docs[a].0 != docs[b].0);
        } else if a < docs.len() {
            assert(docs[a].0 != entry.0);
        } else {
            assert(docs[b].0 != entry.0);
        }
    }
    assert(nd.drop_last() =~= docs);
}

proof fn lemma_docs_remove(docs: Seq<(Seq<char>, DocumentModel)>, i: int)
    requires
        uris_unique(docs),
        0 <= i < docs.len(),
    ensures
        uris_unique(docs.remove(i)),
        doc_lookup(docs.remove(i), docs[i].0) is None,
        forall|u: Seq<char>|
            u != docs[i].0 ==> #[trigger] doc_lookup(docs.remove(i), u) == doc_lookup(docs, u),
{
    let nd = docs.remove(i);
    assert forall|a: int, b: int|
        0 <= a < nd.len() && 0 <= b < nd.len() && a != b implies #[trigger] nd[a].0
        != #[trigger] nd[b].0 by {
        let sa = if a < i {
            a
        } else {
            a + 1
        };
        let sb = if b < i {
            b
        } else {
            b + 1
        };
        assert(nd[a] == docs[sa]);
        assert(nd[b] == docs[sb]);
        assert(docs[sa].0 != docs[sb].0);
    }
    lemma_doc_lookup(nd, docs[i].0);
    assert forall|k: int| 0 <= k < nd.len() implies #[trigger] nd[k].0 != docs[i].0 by {
        let sk = if k < i {
            k
        } else {
            k + 1
        };
        assert(nd[k] == docs[sk]);
    }
    assert forall|u: Seq<char>| u != docs[i].0 implies #[trigger] doc_lookup(nd, u) == doc_lookup(
        docs,
        u,
    ) by {
        lemma_doc_lookup(nd, u);
        lemma_doc_lookup(docs, u);
        if exists|k: int| 0 <= k < docs.len() && #[trigger] docs[k].0 == u {
            let k = choose|k: int| 0 <= k < docs.len() && #[trigger] docs[k].0 == u;
            let nk = if k < i {
                k
            } else {
                k - 1
            };
            assert(nd[nk] == docs[k]);
        } else {
            assert forall|k: int| 0 <= k < nd.len() implies #[trigger] nd[k].0 != u by {
                let sk = if k < i {
                    k
                } else {
                    k + 1
                };
                assert(nd[k] == docs[sk]);
            }
        }
    }
}

impl ServerState {
    /// The open documents with their uris, in order of first opening.
    pub closed spec fn docs(&self) -> Seq<(Seq<char>, DocumentModel)> {
        self.entries@.map_values(|e: DocEntry| (e.uri@, e.doc@))
    }

    /// The document open under `uri`, if any.
    pub open spec fn document_view(&self, uri: Seq<char>) -> Option<DocumentModel> {
        doc_lookup(self.docs(), uri)
    }

    /// The uris of the open documents, in order of first opening.
    pub open spec fn uris(&self) -> Seq<Seq<char>> {
        self.docs().map_values(|p: (Seq<char>, DocumentModel)| p.0)
    }

    /// The active configuration.
    pub closed spec fn config_view(&self) -> ConfigModel {
        self.config@
    }

    /// The workspace root, if any.
    pub closed spec fn root_view(&self) -> Option<Seq<char>> {
        match self.root {
            Some(r) => Some(r@),
            None => None,
        }
    }

    /// Whether the client can handle a diagnostic refresh request.
    pub closed spec fn refresh_view(&self) -> bool {
        self.diagnostic_refresh_support
    }

    /// The id the next server-sent request gets.
    pub closed spec fn next_id(&self) -> i32 {
        self.next_request_id
    }

    /// The state's invariant: each uri is open at most once, the
    /// configuration is well formed, every document's text fits the
    /// analyzer and its findings are those of its text.
    pub closed spec fn wf(&self) -> bool {
        &&& uris_unique(self.docs())
        &&& self.config.wf()
        &&& forall|i: int|
            0 <= i < self.docs().len() ==> (#[trigger] self.docs()[i]).1.text.len() <= usize::MAX
                / 8 && linted(self.docs()[i].1.text, self.docs()[i].1.issues, self.config@)
    }

    /// State for a workspace `root` with configuration `config` and no open
    /// documents.
    pub fn new(root: Option<String>, config: Config) -> (r: ServerState)
        requires
            config.wf(),
        ensures
            r.wf(),
            r.uris().len() == 0,
            forall|u: Seq<char>| #[trigger] r.document_view(u) is None,
            r.config_view() == config@,
            r.root_view() == (match root {
                Some(s) => Some(s@),
                None => None::<Seq<char>>,
            }),
            !r.refresh_view(),
            r.next_id() == 1,
    {
        let r = ServerState {
            entries: Vec::new(),
            root,
            config,
            diagnostic_refresh_support: false,
            next_request_id: 1,
        };
        assert(r.docs() =~= Seq::<(Seq<char>, DocumentModel)>::empty());
        assert(r.uris() =~= Seq::<Seq<char>>::empty());
        r
    }

    /// Records whether the client supports diagnostic refresh requests.
    pub fn set_diagnostic_refresh_support(&mut self, supported: bool)
        requires
            old(self).wf(),
        ensures
            final(self).wf(),
            final(self).refresh_view() == supported,
            final(self).docs() == old(self).docs(),
            final(self).config_view() == old(self).config_view(),
            final(self).root_view() == old(self).root_view(),
            final(self).next_id() == old(self).next_id(),
    {
        self.diagnostic_refresh_support = supported;
    }

    /// Whether the client supports diagnostic refresh requests.
    pub fn diagnostic_refresh_support(&self) -> (r: bool)
        ensures
            r == self.refresh_view(),
    {
        self.diagnostic_refresh_support
    }

    /// A fresh id for a server-sent request.
    pub fn next_request_id(&mut self) -> (r: i32)
        requires
            old(self).wf(),
            old(self).next_id() < i32::MAX,
        ensures
            final(self).wf(),
            r == old(self).next_id(),
            final(self).next_id() == old(self).next_id() + 1,
            final(self).docs() == old(self).docs(),
            final(self).config_view() == old(self).config_view(),
            final(self).root_view() == old(self).root_view(),
            final(self).refresh_view() == old(self).refresh_view(),
    {
        let id = self.next_request_id;
        self.next_request_id = id + 1;
        id
    }

    /// The active configuration.
    pub fn config(&self) -> (r: &Config)
        ensures
            r@ == self.config_view(),
    {
        &self.config
    }

    /// The workspace root, if any.
    pub fn root(&self) -> (r: Option<&str>)
        ensures
            r matches Some(s) ==> self.root_view() == Some(s@),
            r is None ==> self.root_view() is None,
    {
        match &self.root {
            Some(s) => Some(s.as_str()),
            None => None,
        }
    }

    fn position(&self, uri: &[char]) -> (r: Option<usize>)
        ensures
            r matches Some(i) ==> i < self.docs().len() && self.docs()[i as int].0 == uri@,
            r is None ==> forall|i: int|
                0 <= i < self.docs().len() ==> #[trigger] self.docs()[i].0 != uri@,
    {
        let ghost d = self.docs();
        let mut i: usize = 0;
        while i < self.entries.len()
            invariant
                d == self.docs(),
                d.len() == self.entries@.len(),
                i <= d.len(),
                forall|k: int| 0 <= k < i ==> #[trigger] d[k].0 != uri@,
            decreases self.entries.len() - i,
        {
            let c = chars_of(self.entries[i].uri.as_str());
            assert(d[i as int].0 == self.entries@[i as int].uri@);
            if chars_eq(c.as_slice(), uri) {
                return Some(i);
            }
            i += 1;
        }
        None
    }

    /// The document open under `uri`, if any.
    pub fn document(&self, uri: &str) -> (r: Option<&Document>)
        requires
            self.wf(),
        ensures
            r matches Some(d) ==> self.document_view(uri@) == Some(d@),
            r is None ==> self.document_view(uri@) is None,
    {
        let key = chars_of(uri);
        let p = self.position(key.as_slice());
        proof {
            lemma_doc_lookup(self.docs(), uri@);
        }
        match p {
            Some(i) => {
                assert(self.docs()[i as int].1 == self.entries@[i as int].doc@);
                Some(&self.entries[i].doc)
            },
            None => None,
        }
    }

    /// The uris of the open documents, in order of first opening.
    pub fn open_uris(&self) -> (r: Vec<String>)
        ensures
            crate::models::strs(r@) == self.uris(),
    {
        let ghost u = self.uris();
        let mut out: Vec<String> = Vec::new();
        let mut i: usize = 0;
        while i < self.entries.len()
            invariant
                u == self.uris(),
                u.len() == self.entries@.len(),
                i <= u.len(),
                crate::models::strs(out@) == u.subrange(0, i as int),
            decreases self.entries.len() - i,
        {
            assert(u[i as int] == self.entries@[i as int].uri@);
            let ghost before = out@;
            let x = string_of(chars_of(self.entries[i].uri.as_str()).as_slice());
            out.push(x);
            assert(crate::models::strs(out@) =~= crate::models::strs(before).push(x@));
            assert(u.subrange(0, i + 1) =~= u.subrange(0, i as int).push(u[i as int]));
            i += 1;
        }
        assert(u.subrange(0, i as int) =~= u);
        out
    }

    /// The hover text for 0-indexed line `line` of the document of `uri`:
    /// the rendering of the first finding on that line, if any.
    pub fn hover(&self, uri: &str, line: u32) -> (r: Option<String>)
        requires
            self.wf(),
        ensures
            r matches Some(t) ==> self.document_view(uri@) matches Some(d) && hover_spec(
                d.issues,
                line,
            ) == Some(t@),
            r is None ==> (self.document_view(uri@) matches Some(d) ==> hover_spec(
                d.issues,
                line,
            ) is None),
    {
        match self.document(uri) {
            Some(d) => hover_text(d.issues.as_slice(), line),
            None => None,
        }
    }

    /// The snippets offered at 0-indexed line `line` of the document of
    /// `uri`, if it is open.
    pub fn completion(&self, uri: &str, line: u32) -> (r: Option<Vec<Snippet>>)
        requires
            self.wf(),
        ensures
            r matches Some(v) ==> self.document_view(uri@) matches Some(d) && snippet_models(v@)
                == snippets_of(completion_set_spec(d.text, line as int)),
            r is None ==> self.document_view(uri@) is None,
    {
        match self.document(uri) {
            Some(d) => {
                proof {
                    lemma_doc_lookup(self.docs(), uri@);
                    let k = choose|k: int| 0 <= k < self.docs().len() && #[trigger] self.docs()[k].0 == uri@;
                    assert(self.docs()[k].1.text.len() <= usize::MAX / 8);
                }
                let set = completion_set(d.text.as_str(), line as usize);
                Some(snippets_for(set))
            },
            None => None,
        }
    }

    /// The actions for the given diagnostics of the document of `uri`; `None`
    /// when it is not open or when no action applies.
    pub fn code_actions(&self, uri: &str, diags: &[DiagnosticRef]) -> (r: Option<
        Vec<CodeActionRecord>,
    >)
        requires
            self.wf(),
        ensures
            r is Some <==> (self.document_view(uri@) matches Some(d) && actions_spec(
                lines(d.text),
                ref_models(diags@),
                diags@.len() as int,
            ).len() > 0),
            r matches Some(v) ==> v@.len() > 0 && (self.document_view(uri@) matches Some(d)
                && action_models(v@) == actions_spec(
                lines(d.text),
                ref_models(diags@),
                diags@.len() as int,
            )),
    {
        match self.document(uri) {
            Some(d) => {
                let v = code_actions(d.text.as_str(), diags);
                if v.len() > 0 {
                    Some(v)
                } else {
                    None
                }
            },
            None => None,
        }
    }

    /// The diagnostics and version of the document of `uri`, `None` when it
    /// is not open: one diagnostic for each finding whose positions fit the
    /// protocol's 32-bit numbers, in order.
    pub fn diagnostics(&self, uri: &str) -> (r: Option<(Vec<DiagnosticRecord>, i32)>)
        requires
            self.wf(),
        ensures
            r is Some <==> self.document_view(uri@) is Some,
            r matches Some(p) ==> self.document_view(uri@) matches Some(d) && p.1 == d.version
                && diagnostic_models(p.0@) == fitting_diagnostics(d.issues, lines(d.text)),
    {
        match self.document(uri) {
            Some(d) => {
                proof {
                    assert(issue_models(d.issues@) =~= d@.issues);
                }
                Some((issues_to_diagnostics_checked(d.issues.as_slice(), d.text.as_str()), d.version))
            },
            None => None,
        }
    }

    /// Opens or replaces the document of `uri` with `text` at `version`,
    /// linting the text under the active configuration.
    pub fn upsert(&mut self, uri: &str, text: String, version: i32)
        requires
            old(self).wf(),
            text@.len() <= usize::MAX / 8,
        ensures
            final(self).wf(),
            final(self).document_view(uri@) matches Some(d) && d.text == text@ && d.version
                == version && linted(text@, d.issues, old(self).config_view()),
            !url_parses(uri@) ==> (final(self).document_view(uri@) matches Some(d) && d.issues
                == document_issues(uri@, text@, old(self).config_view())),
            forall|u: Seq<char>|
                u != uri@ ==> #[trigger] final(self).document_view(u) == old(self).document_view(
                    u,
                ),
            final(self).config_view() == old(self).config_view(),
            final(self).root_view() == old(self).root_view(),
            final(self).refresh_view() == old(self).refresh_view(),
            final(self).next_id() == old(self).next_id(),
    {
        let path = uri_to_path(uri);
        let (issues, _summary) = lint_source(path.as_str(), text.as_str(), &self.config);
        let doc = Document { text, version, issues };
        assert(document_issues(path@, doc.text@, self.config@) == doc@.issues);
        assert(linted(doc.text@, doc@.issues, self.config@));
        let key = chars_of(uri);
        let ghost before = self.docs();
        let entry = DocEntry { uri: string_of(key.as_slice()), doc };
        let ghost e = (entry.uri@, entry.doc@);
        match self.position(key.as_slice()) {
            Some(i) => {
                self.entries.set(i, entry);
                proof {
                    assert(self.docs() =~= before.update(i as int, e));
                    lemma_docs_update(before, i as int, e);
                }
            },
            None => {
                self.entries.push(entry);
                proof {
                    assert(self.docs() =~= before.push(e));
                    lemma_docs_push(before, e);
                }
            },
        }
        proof {
            assert forall|k: int| 0 <= k < self.docs().len() implies (#[trigger] self.docs()[k]).1.text.len()
                <= usize::MAX / 8 && linted(
                self.docs()[k].1.text,
                self.docs()[k].1.issues,
                self.config@,
            ) by {
                if k < before.len() && self.docs()[k] != e {
                    assert(self.docs()[k] == before[k]);
                }
            }
        }
    }

    /// Records a new version of the document of `uri` without changing its
    /// text or findings; nothing happens for a uri that is not open.
    pub fn set_version(&mut self, uri: &str, version: i32)
        requires
            old(self).wf(),
        ensures
            final(self).wf(),
            old(self).document_view(uri@) matches Some(d) ==> final(self).document_view(uri@)
                == Some(DocumentModel { text: d.text, version, issues: d.issues }),
            old(self).document_view(uri@) is None ==> final(self).document_view(uri@) is None,
            forall|u: Seq<char>|
                u != uri@ ==> #[trigger] final(self).document_view(u) == old(self).document_view(
                    u,
                ),
            final(self).uris() == old(self).uris(),
            final(self).config_view() == old(self).config_view(),
            final(self).root_view() == old(self).root_view(),
            final(self).refresh_view() == old(self).refresh_view(),
            final(self).next_id() == old(self).next_id(),
    {
        let key = chars_of(uri);
        let ghost before = self.docs();
        proof {
            lemma_doc_lookup(before, uri@);
        }
        match self.position(key.as_slice()) {
            Some(i) => {
                let old_doc = &self.entries[i].doc;
                let doc = Document {
                    text: string_of(chars_of(old_doc.text.as_str()).as_slice()),
                    version,
                    issues: copy_issues(&old_doc.issues),
                };
                let entry = DocEntry { uri: string_of(key.as_slice()), doc };
                let ghost e = (entry.uri@, entry.doc@);
                assert(e.1.text == before[i as int].1.text);
                assert(e.1.issues == before[i as int].1.issues);
                self.entries.set(i, entry);
                proof {
                    assert(self.docs() =~= before.update(i as int, e));
                    lemma_docs_update(before, i as int, e);
                    assert(self.uris() =~= old(self).uris());
                    assert forall|k: int| 0 <= k < self.docs().len() implies (#[trigger] self.docs()[k]).1.text.len()
                        <= usize::MAX / 8 && linted(
                        self.docs()[k].1.text,
                        self.docs()[k].1.issues,
                        self.config@,
                    ) by {
                        assert(before[k].1.text.len() <= usize::MAX / 8 && linted(
                            before[k].1.text,
                            before[k].1.issues,
                            self.config@,
                        ));
                    }
                }
            },
            None => {},
        }
    }

    /// Closes the document of `uri`.
    pub fn remove(&mut self, uri: &str)
        requires
            old(self).wf(),
        ensures
            final(self).wf(),
            final(self).document_view(uri@) is None,
            forall|u: Seq<char>|
                u != uri@ ==> #[trigger] final(self).document_view(u) == old(self).document_view(
                    u,
                ),
            final(self).config_view() == old(self).config_view(),
            final(self).root_view() == old(self).root_view(),
            final(self).refresh_view() == old(self).refresh_view(),
            final(self).next_id() == old(self).next_id(),
    {
        let key = chars_of(uri);
        let ghost before = self.docs();
        proof {
            lemma_doc_lookup(before, uri@);
        }
        match self.position(key.as_slice()) {
            Some(i) => {
                let _removed = self.entries.remove(i);
                proof {
                    assert(self.docs() =~= before.remove(i as int));
                    lemma_docs_remove(before, i as int);
                    assert forall|k: int| 0 <= k < self.docs().len() implies (#[trigger] self.docs()[k]).1.text.len()
                        <= usize::MAX / 8 && linted(
                        self.docs()[k].1.text,
                        self.docs()[k].1.issues,
                        self.config@,
                    ) by {
                        let sk = if k < i {
                            k
                        } else {
                            k + 1
                        };
                        assert(self.docs()[k] == before[sk]);
                    }
                }
            },
            None => {},
        }
    }

    /// Takes a freshly loaded configuration, if any, and lints every open
    /// document again under the active configuration.
    pub fn reload_config(&mut self, loaded: Option<Config>)
        requires
            old(self).wf(),
            loaded matches Some(c) ==> c.wf(),
        ensures
            final(self).wf(),
            final(self).config_view() == (match loaded {
                Some(c) => c@,
                None => old(self).config_view(),
            }),
            final(self).uris() == old(self).uris(),
            forall|u: Seq<char>|
                #![trigger final(self).document_view(u)]
                old(self).document_view(u) matches Some(d) ==> final(self).document_view(u) matches Some(
                    n,
                ) && n.text == d.text && n.version == d.version && linted(
                    n.text,
                    n.issues,
                    final(self).config_view(),
                ) && (!url_parses(u) ==> n.issues == document_issues(
                    u,
                    n.text,
                    final(self).config_view(),
                )),
            forall|u: Seq<char>|
                old(self).document_view(u) is None ==> #[trigger] final(self).document_view(u) is None,
            final(self).root_view() == old(self).root_view(),
            final(self).refresh_view() == old(self).refresh_view(),
            final(self).next_id() == old(self).next_id(),
    {
        match loaded {
            Some(c) => {
                self.config = c;
            },
            None => {},
        }
        let ghost before = old(self).docs();
        let mut fresh: Vec<DocEntry> = Vec::new();
        let mut i: usize = 0;
        while i < self.entries.len()
            invariant
                before == self.docs(),
                self.config.wf(),
                uris_unique(before),
                forall|k: int|
                    0 <= k < before.len() ==> (#[trigger] before[k]).1.text.len() <= usize::MAX / 8,
                i <= before.len(),
                fresh@.len() == i,
                forall|k: int|
                    0 <= k < i ==> {
                        let e = #[trigger] fresh@[k];
                        &&& e.uri@ == before[k].0
                        &&& e.doc@.text == before[k].1.text
                        &&& e.doc@.version == before[k].1.version
                        &&& linted(e.doc@.text, e.doc@.issues, self.config@)
                        &&& !url_parses(e.uri@) ==> e.doc@.issues == document_issues(
                            e.uri@,
                            e.doc@.text,
                            self.config@,
                        )
                    },
            decreases self.entries.len() - i,
        {
            let entry = &self.entries[i];
            assert(before[i as int] == (entry.uri@, entry.doc@));
            let path = uri_to_path(entry.uri.as_str());
            let (issues, _summary) = lint_source(
                path.as_str(),
                entry.doc.text.as_str(),
                &self.config,
            );
            let doc = Document {
                text: string_of(chars_of(entry.doc.text.as_str()).as_slice()),
                version: entry.doc.version,
                issues,
            };
            assert(document_issues(path@, doc.text@, self.config@) == doc@.issues);
            fresh.push(DocEntry { uri: string_of(chars_of(entry.uri.as_str()).as_slice()), doc });
            i += 1;
        }
        self.entries = fresh;
        proof {
            let nd = self.docs();
            assert(nd.len() == before.len());
            assert forall|k: int| 0 <= k < nd.len() implies #[trigger] nd[k].0 == before[k].0 by {
                assert(nd[k].0 == self.entries@[k].uri@);
            }
            assert(self.uris() =~= old(self).uris());
            assert forall|a: int, b: int|
                0 <= a < nd.len() && 0 <= b < nd.len() && a != b implies #[trigger] nd[a].0
                != #[trigger] nd[b].0 by {
                assert(before[a].0 != before[b].0);
            }
            assert forall|u: Seq<char>|
                #![trigger self.document_view(u)]
                old(self).document_view(u) is Some implies self.document_view(u) is Some
                    && self.document_view(u).unwrap().text == old(self).document_view(u).unwrap().text
                    && self.document_view(u).unwrap().version == old(self).document_view(
                    u,
                ).unwrap().version && linted(
                    self.document_view(u).unwrap().text,
                    self.document_view(u).unwrap().issues,
                    self.config_view(),
                ) && (!url_parses(u) ==> self.document_view(u).unwrap().issues == document_issues(
                    u,
                    self.document_view(u).unwrap().text,
                    self.config_view(),
                )) by {
                lemma_doc_lookup(before, u);
                lemma_doc_lookup(nd, u);
                if exists|k: int| 0 <= k < before.len() && #[trigger] before[k].0 == u {
                    let k = choose|k: int| 0 <= k < before.len() && #[trigger] before[k].0 == u;
                    assert(nd[k].0 == u);
                    assert(nd[k].1 == self.entries@[k].doc@);
                }
            }
            assert forall|u: Seq<char>| old(self).document_view(u) is None implies #[trigger] self.document_view(
                u,
            ) is None by {
                lemma_doc_lookup(before, u);
                lemma_doc_lookup(nd, u);
                if exists|k: int| 0 <= k < nd.len() && #[trigger] nd[k].0 == u {
                    let k = choose|k: int| 0 <= k < nd.len() && #[trigger] nd[k].0 == u;
                    assert(before[k].0 == u);
                }
            }
            assert forall|k: int| 0 <= k < nd.len() implies (#[trigger] nd[k]).1.text.len()
                <= usize::MAX / 8 && linted(nd[k].1.text, nd[k].1.issues, self.config@) by {
                assert(nd[k].1 == self.entries@[k].doc@);
            }
        }
    }
}

/// A copy of some findings.
pub fn copy_issues(v: &Vec<Issue>) -> (r: Vec<Issue>)
    ensures
        issue_models(r@) == issue_models(v@),
{
    let mut out: Vec<Issue> = Vec::new();
    let mut i: usize = 0;
    while i < v.len()
        invariant
            i <= v@.len(),
            issue_models(out@) == issue_models(v@.subrange(0, i as int)),
        decreases v.len() - i,
    {
        let ghost before = out@;
        let x = v[i].duplicate();
        out.push(x);
        assert(issue_models(out@) =~= issue_models(before).push(x@));
        assert(issue_models(v@.subrange(0, i + 1)) =~= issue_models(v@.subrange(0, i as int)).push(
            v@[i as int]@,
        ));
        i += 1;
    }
    assert(v@.subrange(0, i as int) =~= v@);
    out
}

} // verus!

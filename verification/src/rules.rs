//! The rule catalog: every rule the linter can report, with its default
//! severity and the help text shown next to findings.

use vstd::prelude::*;
use crate::models::Severity;
use crate::models::Issue;
use crate::text::chars_of;
use crate::text::chars_eq;
use crate::text::string_of;

verus! {

pub const OWUI001: &'static str = "OWUI001";
pub const OWUI010: &'static str = "OWUI010";
pub const OWUI011: &'static str = "OWUI011";
pub const OWUI020: &'static str = "OWUI020";
pub const OWUI021: &'static str = "OWUI021";
pub const OWUI022: &'static str = "OWUI022";
pub const OWUI023: &'static str = "OWUI023";
pub const OWT100: &'static str = "OWT100";
pub const OWT101: &'static str = "OWT101";
pub const OWT102: &'static str = "OWT102";
pub const OWP200: &'static str = "OWP200";
pub const OWP201: &'static str = "OWP201";
pub const OWP202: &'static str = "OWP202";
pub const OWF300: &'static str = "OWF300";
pub const OWF301: &'static str = "OWF301";
pub const OWF303: &'static str = "OWF303";
pub const OWF304: &'static str = "OWF304";
pub const OWA400: &'static str = "OWA400";
pub const OWA401: &'static str = "OWA401";
pub const OWA402: &'static str = "OWA402";
pub const OWPL500: &'static str = "OWPL500";
pub const OWPL501: &'static str = "OWPL501";
pub const OWUI030: &'static str = "OWUI030";
pub const OWUI031: &'static str = "OWUI031";
pub const OWUI032: &'static str = "OWUI032";

/// The minimum Open WebUI release a rule's advice applies to, shown in
/// hovers. No rule records a release of its own, so every rule carries this
/// one baseline: a release in which all five extension types (Tools, Pipe,
/// Filter, Action, Pipeline) and the `Valves`/`UserValves` configuration
/// classes that the rules check are available.
pub const OPENWEBUI_BASELINE: &'static str = "0.5.0";

/// Documentation of one rule.
#[derive(Debug, Clone, Copy, PartialEq, Eq)]
pub struct RuleDoc {
    pub id: &'static str,
    pub default_severity: Severity,
    pub title: &'static str,
    pub summary: &'static str,
    pub remediation: &'static str,
    pub help_url: &'static str,
    pub openwebui_version: &'static str,
}

/// The content of a [`RuleDoc`].
pub struct RuleModel {
    pub id: Seq<char>,
    pub default_severity: Severity,
    pub title: Seq<char>,
    pub summary: Seq<char>,
    pub remediation: Seq<char>,
    pub help_url: Seq<char>,
    pub openwebui_version: Seq<char>,
}

impl RuleDoc {
    pub open spec fn model(self) -> RuleModel {
        RuleModel {
            id: self.id@,
            default_severity: self.default_severity,
            title: self.title@,
            summary: self.summary@,
            remediation: self.remediation@,
            help_url: self.help_url@,
            openwebui_version: self.openwebui_version@,
        }
    }
}

/// The rules, in catalog order.
///
/// OWF303, OWF304 and OWA402 are reported by the Filter and Action checks
/// (a hook without its `body` or `event` parameter) but had no entry of
/// their own; theirs were written for this catalog from the messages the
/// checks give, with the default severity of the neighbouring parameter and
/// signature rules, warning.
pub open spec fn catalog() -> Seq<RuleModel> {
    seq![
        RuleModel {
            id: OWUI001@,
            default_severity: Severity::Error,
            title: "Python syntax error"@,
            summary: "The file cannot be parsed as valid Python."@,
            remediation: "Fix syntax errors first; run `python -m py_compile <file.py>` to confirm."@,
            help_url: "https://docs.python.org/3/reference/index.html"@,
            openwebui_version: OPENWEBUI_BASELINE@,
        },
        RuleModel {
            id: OWUI010@,
            default_severity: Severity::Warning,
            title: "No extension class detected"@,
            summary: "The file looks like an extension, but no Tools/Pipe/Filter/Action/Pipeline class was found."@,
            remediation: "Define exactly one top-level extension class with a supported name."@,
            help_url: "https://docs.openwebui.com/features/plugin/"@,
            openwebui_version: OPENWEBUI_BASELINE@,
        },
        RuleModel {
            id: OWUI011@,
            default_severity: Severity::Error,
            title: "Mixed extension types"@,
            summary: "A file contains more than one extension type, which Open WebUI does not support."@,
            remediation: "Keep one extension class per file and split other types into separate files."@,
            help_url: "https://docs.openwebui.com/features/plugin/"@,
            openwebui_version: OPENWEBUI_BASELINE@,
        },
        RuleModel {
            id: OWUI020@,
            default_severity: Severity::Warning,
            title: "Missing Valves class"@,
            summary: "Extensions should provide a nested `Valves` class for runtime configuration."@,
            remediation: "Add `class Valves(BaseModel): ...` inside the extension class."@,
            help_url: "https://docs.openwebui.com/features/plugin/tools/development/"@,
            openwebui_version: OPENWEBUI_BASELINE@,
        },
        RuleModel {
            id: OWUI021@,
            default_severity: Severity::Warning,
            title: "Valves should inherit BaseModel"@,
            summary: "Valves configuration should inherit from `pydantic.BaseModel`."@,
            remediation: "Change `class Valves:` to `class Valves(BaseModel):`."@,
            help_url: "https://docs.openwebui.com/features/plugin/tools/development/"@,
            openwebui_version: OPENWEBUI_BASELINE@,
        },
        RuleModel {
            id: OWUI022@,
            default_severity: Severity::Warning,
            title: "Valves not initialized"@,
            summary: "The extension does not initialize `self.valves` in `__init__`."@,
            remediation: "Set `self.valves = self.Valves()` in `__init__`."@,
            help_url: "https://docs.openwebui.com/features/plugin/tools/development/"@,
            openwebui_version: OPENWEBUI_BASELINE@,
        },
        RuleModel {
            id: OWUI023@,
            default_severity: Severity::Warning,
            title: "Sensitive valve field not masked"@,
            summary: "A Valves field name suggests sensitive data (API key, token, password) but does not use the password input type to mask UI display."@,
            remediation: "Add `json_schema_extra={\"input\": {\"type\": \"password\"}}` to the Field() definition."@,
            help_url: "https://docs.openwebui.com/features/extensibility/plugin/development/valves#input-types"@,
            openwebui_version: OPENWEBUI_BASELINE@,
        },
        RuleModel {
            id: OWT100@,
            default_severity: Severity::Error,
            title: "No public tool methods"@,
            summary: "Tools extension must expose at least one callable public method."@,
            remediation: "Add an async public method (for example `async def search(...)`) to `Tools`."@,
            help_url: "https://docs.openwebui.com/features/plugin/tools/"@,
            openwebui_version: OPENWEBUI_BASELINE@,
        },
        RuleModel {
            id: OWT101@,
            default_severity: Severity::Warning,
            title: "Tool method missing docstring"@,
            summary: "Tool methods should include clear docstrings so users understand capabilities."@,
            remediation: "Add a descriptive docstring to each public tool method."@,
            help_url: "https://docs.openwebui.com/features/plugin/tools/"@,
            openwebui_version: OPENWEBUI_BASELINE@,
        },
        RuleModel {
            id: OWT102@,
            default_severity: Severity::Warning,
            title: "Tool method should be async"@,
            summary: "Tool methods should be async; Open WebUI calls them in an async context and type-hints generate JSON schemas for the model."@,
            remediation: "Use `async def method_name(...)` for all public tool methods."@,
            help_url: "https://docs.openwebui.com/features/plugin/tools/"@,
            openwebui_version: OPENWEBUI_BASELINE@,
        },
        RuleModel {
            id: OWP200@,
            default_severity: Severity::Error,
            title: "Pipe method missing"@,
            summary: "Pipe extension must define a `pipe` method."@,
            remediation: "Add `async def pipe(self, body, ...)` to the `Pipe` class."@,
            help_url: "https://docs.openwebui.com/features/plugin/functions/pipe/"@,
            openwebui_version: OPENWEBUI_BASELINE@,
        },
        RuleModel {
            id: OWP201@,
            default_severity: Severity::Warning,
            title: "Pipe has inlet/outlet"@,
            summary: "Pipe extensions should not define `inlet` or `outlet` methods."@,
            remediation: "Remove `inlet`/`outlet`, or convert this class to a `Filter` extension."@,
            help_url: "https://docs.openwebui.com/features/plugin/functions/pipe/"@,
            openwebui_version: OPENWEBUI_BASELINE@,
        },
        RuleModel {
            id: OWP202@,
            default_severity: Severity::Warning,
            title: "Pipe method should be async"@,
            summary: "Synchronous `pipe` methods reduce compatibility with Open WebUI runtime execution."@,
            remediation: "Use `async def pipe(...)` and await I/O operations."@,
            help_url: "https://docs.openwebui.com/features/plugin/functions/pipe/"@,
            openwebui_version: OPENWEBUI_BASELINE@,
        },
        RuleModel {
            id: OWF300@,
            default_severity: Severity::Error,
            title: "Filter has no inlet/outlet/stream"@,
            summary: "Filter extension must implement `inlet`, `outlet`, `stream`, or a combination of them."@,
            remediation: "Add at least one of `inlet`, `outlet`, or `stream` methods."@,
            help_url: "https://docs.openwebui.com/features/plugin/functions/filter/"@,
            openwebui_version: OPENWEBUI_BASELINE@,
        },
        RuleModel {
            id: OWF301@,
            default_severity: Severity::Warning,
            title: "inlet should return body"@,
            summary: "`Filter.inlet` should return the transformed request body."@,
            remediation: "Return `body` (or the modified body) from `inlet`."@,
            help_url: "https://docs.openwebui.com/features/plugin/functions/filter/"@,
            openwebui_version: OPENWEBUI_BASELINE@,
        },
        RuleModel {
            id: OWF303@,
            default_severity: Severity::Warning,
            title: "Filter hook missing body parameter"@,
            summary: "`Filter.inlet` and `Filter.outlet` receive the request body as their `body` argument."@,
            remediation: "Add a `body` parameter, e.g. `async def inlet(self, body: dict) -> dict`."@,
            help_url: "https://docs.openwebui.com/features/plugin/functions/filter/"@,
            openwebui_version: OPENWEBUI_BASELINE@,
        },
        RuleModel {
            id: OWF304@,
            default_severity: Severity::Warning,
            title: "Filter stream missing event parameter"@,
            summary: "`Filter.stream` receives each streamed chunk as its `event` argument."@,
            remediation: "Add an `event` parameter, e.g. `def stream(self, event: dict) -> dict`."@,
            help_url: "https://docs.openwebui.com/features/plugin/functions/filter/"@,
            openwebui_version: OPENWEBUI_BASELINE@,
        },
        RuleModel {
            id: OWA400@,
            default_severity: Severity::Error,
            title: "Action method missing"@,
            summary: "Action extension must define an `action` method."@,
            remediation: "Add `async def action(self, body, ...)` to the class."@,
            help_url: "https://docs.openwebui.com/features/plugin/functions/action/"@,
            openwebui_version: OPENWEBUI_BASELINE@,
        },
        RuleModel {
            id: OWA401@,
            default_severity: Severity::Warning,
            title: "Action should be async"@,
            summary: "Synchronous `action` methods may not behave correctly in async execution contexts."@,
            remediation: "Use `async def action(...)` and await I/O operations."@,
            help_url: "https://docs.openwebui.com/features/plugin/functions/action/"@,
            openwebui_version: OPENWEBUI_BASELINE@,
        },
        RuleModel {
            id: OWA402@,
            default_severity: Severity::Warning,
            title: "Action missing body parameter"@,
            summary: "`Action.action` receives the message payload as its `body` argument."@,
            remediation: "Add a `body` parameter, e.g. `async def action(self, body: dict, ...)`."@,
            help_url: "https://docs.openwebui.com/features/plugin/functions/action/"@,
            openwebui_version: OPENWEBUI_BASELINE@,
        },
        RuleModel {
            id: OWPL500@,
            default_severity: Severity::Error,
            title: "Pipeline missing processing hook"@,
            summary: "Pipeline extension must define `pipe` (pipe type), `pipes` (manifold type), or filter hooks (`inlet`/`outlet`/`stream`)."@,
            remediation: "Add `pipe` for a standard pipeline, `pipes` for a manifold returning multiple models, or filter hooks for a filter-type pipeline."@,
            help_url: "https://docs.openwebui.com/pipelines/"@,
            openwebui_version: OPENWEBUI_BASELINE@,
        },
        RuleModel {
            id: OWPL501@,
            default_severity: Severity::Warning,
            title: "Pipeline name not assigned"@,
            summary: "`Pipeline.__init__` should assign `self.name` for clearer labeling."@,
            remediation: "Set `self.name = \"...\"` in `__init__`."@,
            help_url: "https://docs.openwebui.com/pipelines/"@,
            openwebui_version: OPENWEBUI_BASELINE@,
        },
        RuleModel {
            id: OWUI030@,
            default_severity: Severity::Warning,
            title: "Missing version in module header"@,
            summary: "The module docstring header does not include a `version:` field."@,
            remediation: "Add `version: 0.1.0` (or your current version) to the module docstring."@,
            help_url: "https://docs.openwebui.com/features/plugin/"@,
            openwebui_version: OPENWEBUI_BASELINE@,
        },
        RuleModel {
            id: OWUI031@,
            default_severity: Severity::Warning,
            title: "Unpinned requirements in module header"@,
            summary: "One or more packages in `requirements:` lack a pinned version specifier."@,
            remediation: "Pin each package, e.g. change `llama-index` to `llama-index==0.1.2`."@,
            help_url: "https://docs.openwebui.com/features/plugin/"@,
            openwebui_version: OPENWEBUI_BASELINE@,
        },
        RuleModel {
            id: OWUI032@,
            default_severity: Severity::Warning,
            title: "Missing title in module header"@,
            summary: "The module docstring header does not include a `title:` field, which Open WebUI uses as the display name in the UI."@,
            remediation: "Add `title: My Extension Name` to the module docstring."@,
            help_url: "https://docs.openwebui.com/features/plugin/"@,
            openwebui_version: OPENWEBUI_BASELINE@,
        },
    ]
}

/// Position of the first catalog entry at or after `i` whose id is `id`.
pub open spec fn rule_index_from(id: Seq<char>, i: int) -> Option<int>
    decreases catalog().len() - i,
{
    if i < 0 || i >= catalog().len() {
        None
    } else if catalog()[i].id == id {
        Some(i)
    } else {
        rule_index_from(id, i + 1)
    }
}

/// The catalog entry whose id is `id`, if any.
pub open spec fn rule_model(id: Seq<char>) -> Option<RuleModel> {
    match rule_index_from(id, 0) {
        Some(k) => Some(catalog()[k]),
        None => None,
    }
}

/// Whether `id` names a rule of the catalog.
pub open spec fn is_known(id: Seq<char>) -> bool {
    rule_model(id) is Some
}

/// The default severity of a known rule.
pub open spec fn default_severity_of(id: Seq<char>) -> Severity {
    rule_model(id).unwrap().default_severity
}


pub proof fn lemma_index_finds(id: Seq<char>, i: int, k: int)
    requires
        0 <= i <= k < catalog().len(),
        catalog()[k].id == id,
    ensures
        rule_index_from(id, i) is Some,
    decreases k - i,
{
    if catalog()[i].id != id {
        lemma_index_finds(id, i + 1, k);
    }
}

/// Every id of the catalog names a known rule.
pub proof fn lemma_all_known()
    ensures
        is_known(OWUI001@),
        is_known(OWUI010@),
        is_known(OWUI011@),
        is_known(OWUI020@),
        is_known(OWUI021@),
        is_known(OWUI022@),
        is_known(OWUI023@),
        is_known(OWT100@),
        is_known(OWT101@),
        is_known(OWT102@),
        is_known(OWP200@),
        is_known(OWP201@),
        is_known(OWP202@),
        is_known(OWF300@),
        is_known(OWF301@),
        is_known(OWF303@),
        is_known(OWF304@),
        is_known(OWA400@),
        is_known(OWA401@),
        is_known(OWA402@),
        is_known(OWPL500@),
        is_known(OWPL501@),
        is_known(OWUI030@),
        is_known(OWUI031@),
        is_known(OWUI032@),
{
    lemma_index_finds(OWUI001@, 0, 0);
    lemma_index_finds(OWUI010@, 0, 1);
    lemma_index_finds(OWUI011@, 0, 2);
    lemma_index_finds(OWUI020@, 0, 3);
    lemma_index_finds(OWUI021@, 0, 4);
    lemma_index_finds(OWUI022@, 0, 5);
    lemma_index_finds(OWUI023@, 0, 6);
    lemma_index_finds(OWT100@, 0, 7);
    lemma_index_finds(OWT101@, 0, 8);
    lemma_index_finds(OWT102@, 0, 9);
    lemma_index_finds(OWP200@, 0, 10);
    lemma_index_finds(OWP201@, 0, 11);
    lemma_index_finds(OWP202@, 0, 12);
    lemma_index_finds(OWF300@, 0, 13);
    lemma_index_finds(OWF301@, 0, 14);
    lemma_index_finds(OWF303@, 0, 15);
    lemma_index_finds(OWF304@, 0, 16);
    lemma_index_finds(OWA400@, 0, 17);
    lemma_index_finds(OWA401@, 0, 18);
    lemma_index_finds(OWA402@, 0, 19);
    lemma_index_finds(OWPL500@, 0, 20);
    lemma_index_finds(OWPL501@, 0, 21);
    lemma_index_finds(OWUI030@, 0, 22);
    lemma_index_finds(OWUI031@, 0, 23);
    lemma_index_finds(OWUI032@, 0, 24);
}

/// The id of catalog entry `k`, spelled out.
proof fn lemma_catalog_id(k: int)
    requires
        0 <= k < catalog().len(),
    ensures
        k == 0 ==> catalog()[k].id == OWUI001@,
        k == 1 ==> catalog()[k].id == OWUI010@,
        k == 2 ==> catalog()[k].id == OWUI011@,
        k == 3 ==> catalog()[k].id == OWUI020@,
        k == 4 ==> catalog()[k].id == OWUI021@,
        k == 5 ==> catalog()[k].id == OWUI022@,
        k == 6 ==> catalog()[k].id == OWUI023@,
        k == 7 ==> catalog()[k].id == OWT100@,
        k == 8 ==> catalog()[k].id == OWT101@,
        k == 9 ==> catalog()[k].id == OWT102@,
        k == 10 ==> catalog()[k].id == OWP200@,
        k == 11 ==> catalog()[k].id == OWP201@,
        k == 12 ==> catalog()[k].id == OWP202@,
        k == 13 ==> catalog()[k].id == OWF300@,
        k == 14 ==> catalog()[k].id == OWF301@,
        k == 15 ==> catalog()[k].id == OWF303@,
        k == 16 ==> catalog()[k].id == OWF304@,
        k == 17 ==> catalog()[k].id == OWA400@,
        k == 18 ==> catalog()[k].id == OWA401@,
        k == 19 ==> catalog()[k].id == OWA402@,
        k == 20 ==> catalog()[k].id == OWPL500@,
        k == 21 ==> catalog()[k].id == OWPL501@,
        k == 22 ==> catalog()[k].id == OWUI030@,
        k == 23 ==> catalog()[k].id == OWUI031@,
        k == 24 ==> catalog()[k].id == OWUI032@,
{
}

/// Catalog entry `j` has another id than a later entry `k`: their ids
/// differ in length or in a character.
proof fn lemma_id_only_at(k: int, j: int)
    requires
        0 <= j < k < catalog().len(),
    ensures
        catalog()[j].id != catalog()[k].id,
{
    lemma_catalog_id(k);
    lemma_catalog_id(j);
    if k == 1 {
        reveal_strlit("OWUI010");
        if j == 0 {
            reveal_strlit("OWUI001");
            assert(OWUI010@[5] != OWUI001@[5]);
        }
    } else if k == 2 {
        reveal_strlit("OWUI011");
        if j == 0 {
            reveal_strlit("OWUI001");
            assert(OWUI011@[5] != OWUI001@[5]);
        }
        if j == 1 {
            reveal_strlit("OWUI010");
            assert(OWUI011@[6] != OWUI010@[6]);
        }
    } else if k == 3 {
        reveal_strlit("OWUI020");
        if j == 0 {
            reveal_strlit("OWUI001");
            assert(OWUI020@[5] != OWUI001@[5]);
        }
        if j == 1 {
            reveal_strlit("OWUI010");
            assert(OWUI020@[5] != OWUI010@[5]);
        }
        if j == 2 {
            reveal_strlit("OWUI011");
            assert(OWUI020@[5] != OWUI011@[5]);
        }
    } else if k == 4 {
        reveal_strlit("OWUI021");
        if j == 0 {
            reveal_strlit("OWUI001");
            assert(OWUI021@[5] != OWUI001@[5]);
        }
        if j == 1 {
            reveal_strlit("OWUI010");
            assert(OWUI021@[5] != OWUI010@[5]);
        }
        if j == 2 {
            reveal_strlit("OWUI011");
            assert(OWUI021@[5] != OWUI011@[5]);
        }
        if j == 3 {
            reveal_strlit("OWUI020");
            assert(OWUI021@[6] != OWUI020@[6]);
        }
    } else if k == 5 {
        reveal_strlit("OWUI022");
        if j == 0 {
            reveal_strlit("OWUI001");
            assert(OWUI022@[5] != OWUI001@[5]);
        }
        if j == 1 {
            reveal_strlit("OWUI010");
            assert(OWUI022@[5] != OWUI010@[5]);
        }
        if j == 2 {
            reveal_strlit("OWUI011");
            assert(OWUI022@[5] != OWUI011@[5]);
        }
        if j == 3 {
            reveal_strlit("OWUI020");
            assert(OWUI022@[6] != OWUI020@[6]);
        }
        if j == 4 {
            reveal_strlit("OWUI021");
            assert(OWUI022@[6] != OWUI021@[6]);
        }
    } else if k == 6 {
        reveal_strlit("OWUI023");
        if j == 0 {
            reveal_strlit("OWUI001");
            assert(OWUI023@[5] != OWUI001@[5]);
        }
        if j == 1 {
            reveal_strlit("OWUI010");
            assert(OWUI023@[5] != OWUI010@[5]);
        }
        if j == 2 {
            reveal_strlit("OWUI011");
            assert(OWUI023@[5] != OWUI011@[5]);
        }
        if j == 3 {
            reveal_strlit("OWUI020");
            assert(OWUI023@[6] != OWUI020@[6]);
        }
        if j == 4 {
            reveal_strlit("OWUI021");
            assert(OWUI023@[6] != OWUI021@[6]);
        }
        if j == 5 {
            reveal_strlit("OWUI022");
            assert(OWUI023@[6] != OWUI022@[6]);
        }
    } else if k == 7 {
        reveal_strlit("OWT100");
        if j == 0 {
            reveal_strlit("OWUI001");
            assert(OWT100@.len() != OWUI001@.len());
        }
        if j == 1 {
            reveal_strlit("OWUI010");
            assert(OWT100@.len() != OWUI010@.len());
        }
        if j == 2 {
            reveal_strlit("OWUI011");
            assert(OWT100@.len() != OWUI011@.len());
        }
        if j == 3 {
            reveal_strlit("OWUI020");
            assert(OWT100@.len() != OWUI020@.len());
        }
        if j == 4 {
            reveal_strlit("OWUI021");
            assert(OWT100@.len() != OWUI021@.len());
        }
        if j == 5 {
            reveal_strlit("OWUI022");
            assert(OWT100@.len() != OWUI022@.len());
        }
        if j == 6 {
            reveal_strlit("OWUI023");
            assert(OWT100@.len() != OWUI023@.len());
        }
    } else if k == 8 {
        reveal_strlit("OWT101");
        if j == 0 {
            reveal_strlit("OWUI001");
            assert(OWT101@.len() != OWUI001@.len());
        }
        if j == 1 {
            reveal_strlit("OWUI010");
            assert(OWT101@.len() != OWUI010@.len());
        }
        if j == 2 {
            reveal_strlit("OWUI011");
            assert(OWT101@.len() != OWUI011@.len());
        }
        if j == 3 {
            reveal_strlit("OWUI020");
            assert(OWT101@.len() != OWUI020@.len());
        }
        if j == 4 {
            reveal_strlit("OWUI021");
            assert(OWT101@.len() != OWUI021@.len());
        }
        if j == 5 {
            reveal_strlit("OWUI022");
            assert(OWT101@.len() != OWUI022@.len());
        }
        if j == 6 {
            reveal_strlit("OWUI023");
            assert(OWT101@.len() != OWUI023@.len());
        }
        if j == 7 {
            reveal_strlit("OWT100");
            assert(OWT101@[5] != OWT100@[5]);
        }
    } else if k == 9 {
        reveal_strlit("OWT102");
        if j == 0 {
            reveal_strlit("OWUI001");
            assert(OWT102@.len() != OWUI001@.len());
        }
        if j == 1 {
            reveal_strlit("OWUI010");
            assert(OWT102@.len() != OWUI010@.len());
        }
        if j == 2 {
            reveal_strlit("OWUI011");
            assert(OWT102@.len() != OWUI011@.len());
        }
        if j == 3 {
            reveal_strlit("OWUI020");
            assert(OWT102@.len() != OWUI020@.len());
        }
        if j == 4 {
            reveal_strlit("OWUI021");
            assert(OWT102@.len() != OWUI021@.len());
        }
        if j == 5 {
            reveal_strlit("OWUI022");
            assert(OWT102@.len() != OWUI022@.len());
        }
        if j == 6 {
            reveal_strlit("OWUI023");
            assert(OWT102@.len() != OWUI023@.len());
        }
        if j == 7 {
            reveal_strlit("OWT100");
            assert(OWT102@[5] != OWT100@[5]);
        }
        if j == 8 {
            reveal_strlit("OWT101");
            assert(OWT102@[5] != OWT101@[5]);
        }
    } else if k == 10 {
        reveal_strlit("OWP200");
        if j == 0 {
            reveal_strlit("OWUI001");
            assert(OWP200@.len() != OWUI001@.len());
        }
        if j == 1 {
            reveal_strlit("OWUI010");
            assert(OWP200@.len() != OWUI010@.len());
        }
        if j == 2 {
            reveal_strlit("OWUI011");
            assert(OWP200@.len() != OWUI011@.len());
        }
        if j == 3 {
            reveal_strlit("OWUI020");
            assert(OWP200@.len() != OWUI020@.len());
        }
        if j == 4 {
            reveal_strlit("OWUI021");
            assert(OWP200@.len() != OWUI021@.len());
        }
        if j == 5 {
            reveal_strlit("OWUI022");
            assert(OWP200@.len() != OWUI022@.len());
        }
        if j == 6 {
            reveal_strlit("OWUI023");
            assert(OWP200@.len() != OWUI023@.len());
        }
        if j == 7 {
            reveal_strlit("OWT100");
            assert(OWP200@[2] != OWT100@[2]);
        }
        if j == 8 {
            reveal_strlit("OWT101");
            assert(OWP200@[2] != OWT101@[2]);
        }
        if j == 9 {
            reveal_strlit("OWT102");
            assert(OWP200@[2] != OWT102@[2]);
        }
    } else if k == 11 {
        reveal_strlit("OWP201");
        if j == 0 {
            reveal_strlit("OWUI001");
            assert(OWP201@.len() != OWUI001@.len());
        }
        if j == 1 {
            reveal_strlit("OWUI010");
            assert(OWP201@.len() != OWUI010@.len());
        }
        if j == 2 {
            reveal_strlit("OWUI011");
            assert(OWP201@.len() != OWUI011@.len());
        }
        if j == 3 {
            reveal_strlit("OWUI020");
            assert(OWP201@.len() != OWUI020@.len());
        }
        if j == 4 {
            reveal_strlit("OWUI021");
            assert(OWP201@.len() != OWUI021@.len());
        }
        if j == 5 {
            reveal_strlit("OWUI022");
            assert(OWP201@.len() != OWUI022@.len());
        }
        if j == 6 {
            reveal_strlit("OWUI023");
            assert(OWP201@.len() != OWUI023@.len());
        }
        if j == 7 {
            reveal_strlit("OWT100");
            assert(OWP201@[2] != OWT100@[2]);
        }
        if j == 8 {
            reveal_strlit("OWT101");
            assert(OWP201@[2] != OWT101@[2]);
        }
        if j == 9 {
            reveal_strlit("OWT102");
            assert(OWP201@[2] != OWT102@[2]);
        }
        if j == 10 {
            reveal_strlit("OWP200");
            assert(OWP201@[5] != OWP200@[5]);
        }
    } else if k == 12 {
        reveal_strlit("OWP202");
        if j == 0 {
            reveal_strlit("OWUI001");
            assert(OWP202@.len() != OWUI001@.len());
        }
        if j == 1 {
            reveal_strlit("OWUI010");
            assert(OWP202@.len() != OWUI010@.len());
        }
        if j == 2 {
            reveal_strlit("OWUI011");
            assert(OWP202@.len() != OWUI011@.len());
        }
        if j == 3 {
            reveal_strlit("OWUI020");
            assert(OWP202@.len() != OWUI020@.len());
        }
        if j == 4 {
            reveal_strlit("OWUI021");
            assert(OWP202@.len() != OWUI021@.len());
        }
        if j == 5 {
            reveal_strlit("OWUI022");
            assert(OWP202@.len() != OWUI022@.len());
        }
        if j == 6 {
            reveal_strlit("OWUI023");
            assert(OWP202@.len() != OWUI023@.len());
        }
        if j == 7 {
            reveal_strlit("OWT100");
            assert(OWP202@[2] != OWT100@[2]);
        }
        if j == 8 {
            reveal_strlit("OWT101");
            assert(OWP202@[2] != OWT101@[2]);
        }
        if j == 9 {
            reveal_strlit("OWT102");
            assert(OWP202@[2] != OWT102@[2]);
        }
        if j == 10 {
            reveal_strlit("OWP200");
            assert(OWP202@[5] != OWP200@[5]);
        }
        if j == 11 {
            reveal_strlit("OWP201");
            assert(OWP202@[5] != OWP201@[5]);
        }
    } else if k == 13 {
        reveal_strlit("OWF300");
        if j == 0 {
            reveal_strlit("OWUI001");
            assert(OWF300@.len() != OWUI001@.len());
        }
        if j == 1 {
            reveal_strlit("OWUI010");
            assert(OWF300@.len() != OWUI010@.len());
        }
        if j == 2 {
            reveal_strlit("OWUI011");
            assert(OWF300@.len() != OWUI011@.len());
        }
        if j == 3 {
            reveal_strlit("OWUI020");
            assert(OWF300@.len() != OWUI020@.len());
        }
        if j == 4 {
            reveal_strlit("OWUI021");
            assert(OWF300@.len() != OWUI021@.len());
        }
        if j == 5 {
            reveal_strlit("OWUI022");
            assert(OWF300@.len() != OWUI022@.len());
        }
        if j == 6 {
            reveal_strlit("OWUI023");
            assert(OWF300@.len() != OWUI023@.len());
        }
        if j == 7 {
            reveal_strlit("OWT100");
            assert(OWF300@[2] != OWT100@[2]);
        }
        if j == 8 {
            reveal_strlit("OWT101");
            assert(OWF300@[2] != OWT101@[2]);
        }
        if j == 9 {
            reveal_strlit("OWT102");
            assert(OWF300@[2] != OWT102@[2]);
        }
        if j == 10 {
            reveal_strlit("OWP200");
            assert(OWF300@[2] != OWP200@[2]);
        }
        if j == 11 {
            reveal_strlit("OWP201");
            assert(OWF300@[2] != OWP201@[2]);
        }
        if j == 12 {
            reveal_strlit("OWP202");
            assert(OWF300@[2] != OWP202@[2]);
        }
    } else if k == 14 {
        reveal_strlit("OWF301");
        if j == 0 {
            reveal_strlit("OWUI001");
            assert(OWF301@.len() != OWUI001@.len());
        }
        if j == 1 {
            reveal_strlit("OWUI010");
            assert(OWF301@.len() != OWUI010@.len());
        }
        if j == 2 {
            reveal_strlit("OWUI011");
            assert(OWF301@.len() != OWUI011@.len());
        }
        if j == 3 {
            reveal_strlit("OWUI020");
            assert(OWF301@.len() != OWUI020@.len());
        }
        if j == 4 {
            reveal_strlit("OWUI021");
            assert(OWF301@.len() != OWUI021@.len());
        }
        if j == 5 {
            reveal_strlit("OWUI022");
            assert(OWF301@.len() != OWUI022@.len());
        }
        if j == 6 {
            reveal_strlit("OWUI023");
            assert(OWF301@.len() != OWUI023@.len());
        }
        if j == 7 {
            reveal_strlit("OWT100");
            assert(OWF301@[2] != OWT100@[2]);
        }
        if j == 8 {
            reveal_strlit("OWT101");
            assert(OWF301@[2] != OWT101@[2]);
        }
        if j == 9 {
            reveal_strlit("OWT102");
            assert(OWF301@[2] != OWT102@[2]);
        }
        if j == 10 {
            reveal_strlit("OWP200");
            assert(OWF301@[2] != OWP200@[2]);
        }
        if j == 11 {
            reveal_strlit("OWP201");
            assert(OWF301@[2] != OWP201@[2]);
        }
        if j == 12 {
            reveal_strlit("OWP202");
            assert(OWF301@[2] != OWP202@[2]);
        }
        if j == 13 {
            reveal_strlit("OWF300");
            assert(OWF301@[5] != OWF300@[5]);
        }
    } else if k == 15 {
        reveal_strlit("OWF303");
        if j == 0 {
            reveal_strlit("OWUI001");
            assert(OWF303@.len() != OWUI001@.len());
        }
        if j == 1 {
            reveal_strlit("OWUI010");
            assert(OWF303@.len() != OWUI010@.len());
        }
        if j == 2 {
            reveal_strlit("OWUI011");
            assert(OWF303@.len() != OWUI011@.len());
        }
        if j == 3 {
            reveal_strlit("OWUI020");
            assert(OWF303@.len() != OWUI020@.len());
        }
        if j == 4 {
            reveal_strlit("OWUI021");
            assert(OWF303@.len() != OWUI021@.len());
        }
        if j == 5 {
            reveal_strlit("OWUI022");
            assert(OWF303@.len() != OWUI022@.len());
        }
        if j == 6 {
            reveal_strlit("OWUI023");
            assert(OWF303@.len() != OWUI023@.len());
        }
        if j == 7 {
            reveal_strlit("OWT100");
            assert(OWF303@[2] != OWT100@[2]);
        }
        if j == 8 {
            reveal_strlit("OWT101");
            assert(OWF303@[2] != OWT101@[2]);
        }
        if j == 9 {
            reveal_strlit("OWT102");
            assert(OWF303@[2] != OWT102@[2]);
        }
        if j == 10 {
            reveal_strlit("OWP200");
            assert(OWF303@[2] != OWP200@[2]);
        }
        if j == 11 {
            reveal_strlit("OWP201");
            assert(OWF303@[2] != OWP201@[2]);
        }
        if j == 12 {
            reveal_strlit("OWP202");
            assert(OWF303@[2] != OWP202@[2]);
        }
        if j == 13 {
            reveal_strlit("OWF300");
            assert(OWF303@[5] != OWF300@[5]);
        }
        if j == 14 {
            reveal_strlit("OWF301");
            assert(OWF303@[5] != OWF301@[5]);
        }
    } else if k == 16 {
        reveal_strlit("OWF304");
        if j == 0 {
            reveal_strlit("OWUI001");
            assert(OWF304@.len() != OWUI001@.len());
        }
        if j == 1 {
            reveal_strlit("OWUI010");
            assert(OWF304@.len() != OWUI010@.len());
        }
        if j == 2 {
            reveal_strlit("OWUI011");
            assert(OWF304@.len() != OWUI011@.len());
        }
        if j == 3 {
            reveal_strlit("OWUI020");
            assert(OWF304@.len() != OWUI020@.len());
        }
        if j == 4 {
            reveal_strlit("OWUI021");
            assert(OWF304@.len() != OWUI021@.len());
        }
        if j == 5 {
            reveal_strlit("OWUI022");
            assert(OWF304@.len() != OWUI022@.len());
        }
        if j == 6 {
            reveal_strlit("OWUI023");
            assert(OWF304@.len() != OWUI023@.len());
        }
        if j == 7 {
            reveal_strlit("OWT100");
            assert(OWF304@[2] != OWT100@[2]);
        }
        if j == 8 {
            reveal_strlit("OWT101");
            assert(OWF304@[2] != OWT101@[2]);
        }
        if j == 9 {
            reveal_strlit("OWT102");
            assert(OWF304@[2] != OWT102@[2]);
        }
        if j == 10 {
            reveal_strlit("OWP200");
            assert(OWF304@[2] != OWP200@[2]);
        }
        if j == 11 {
            reveal_strlit("OWP201");
            assert(OWF304@[2] != OWP201@[2]);
        }
        if j == 12 {
            reveal_strlit("OWP202");
            assert(OWF304@[2] != OWP202@[2]);
        }
        if j == 13 {
            reveal_strlit("OWF300");
            assert(OWF304@[5] != OWF300@[5]);
        }
        if j == 14 {
            reveal_strlit("OWF301");
            assert(OWF304@[5] != OWF301@[5]);
        }
        if j == 15 {
            reveal_strlit("OWF303");
            assert(OWF304@[5] != OWF303@[5]);
        }
    } else if k == 17 {
        reveal_strlit("OWA400");
        if j == 0 {
            reveal_strlit("OWUI001");
            assert(OWA400@.len() != OWUI001@.len());
        }
        if j == 1 {
            reveal_strlit("OWUI010");
            assert(OWA400@.len() != OWUI010@.len());
        }
        if j == 2 {
            reveal_strlit("OWUI011");
            assert(OWA400@.len() != OWUI011@.len());
        }
        if j == 3 {
            reveal_strlit("OWUI020");
            assert(OWA400@.len() != OWUI020@.len());
        }
        if j == 4 {
            reveal_strlit("OWUI021");
            assert(OWA400@.len() != OWUI021@.len());
        }
        if j == 5 {
            reveal_strlit("OWUI022");
            assert(OWA400@.len() != OWUI022@.len());
        }
        if j == 6 {
            reveal_strlit("OWUI023");
            assert(OWA400@.len() != OWUI023@.len());
        }
        if j == 7 {
            reveal_strlit("OWT100");
            assert(OWA400@[2] != OWT100@[2]);
        }
        if j == 8 {
            reveal_strlit("OWT101");
            assert(OWA400@[2] != OWT101@[2]);
        }
        if j == 9 {
            reveal_strlit("OWT102");
            assert(OWA400@[2] != OWT102@[2]);
        }
        if j == 10 {
            reveal_strlit("OWP200");
            assert(OWA400@[2] != OWP200@[2]);
        }
        if j == 11 {
            reveal_strlit("OWP201");
            assert(OWA400@[2] != OWP201@[2]);
        }
        if j == 12 {
            reveal_strlit("OWP202");
            assert(OWA400@[2] != OWP202@[2]);
        }
        if j == 13 {
            reveal_strlit("OWF300");
            assert(OWA400@[2] != OWF300@[2]);
        }
        if j == 14 {
            reveal_strlit("OWF301");
            assert(OWA400@[2] != OWF301@[2]);
        }
        if j == 15 {
            reveal_strlit("OWF303");
            assert(OWA400@[2] != OWF303@[2]);
        }
        if j == 16 {
            reveal_strlit("OWF304");
            assert(OWA400@[2] != OWF304@[2]);
        }
    } else if k == 18 {
        reveal_strlit("OWA401");
        if j == 0 {
            reveal_strlit("OWUI001");
            assert(OWA401@.len() != OWUI001@.len());
        }
        if j == 1 {
            reveal_strlit("OWUI010");
            assert(OWA401@.len() != OWUI010@.len());
        }
        if j == 2 {
            reveal_strlit("OWUI011");
            assert(OWA401@.len() != OWUI011@.len());
        }
        if j == 3 {
            reveal_strlit("OWUI020");
            assert(OWA401@.len() != OWUI020@.len());
        }
        if j == 4 {
            reveal_strlit("OWUI021");
            assert(OWA401@.len() != OWUI021@.len());
        }
        if j == 5 {
            reveal_strlit("OWUI022");
            assert(OWA401@.len() != OWUI022@.len());
        }
        if j == 6 {
            reveal_strlit("OWUI023");
            assert(OWA401@.len() != OWUI023@.len());
        }
        if j == 7 {
            reveal_strlit("OWT100");
            assert(OWA401@[2] != OWT100@[2]);
        }
        if j == 8 {
            reveal_strlit("OWT101");
            assert(OWA401@[2] != OWT101@[2]);
        }
        if j == 9 {
            reveal_strlit("OWT102");
            assert(OWA401@[2] != OWT102@[2]);
        }
        if j == 10 {
            reveal_strlit("OWP200");
            assert(OWA401@[2] != OWP200@[2]);
        }
        if j == 11 {
            reveal_strlit("OWP201");
            assert(OWA401@[2] != OWP201@[2]);
        }
        if j == 12 {
            reveal_strlit("OWP202");
            assert(OWA401@[2] != OWP202@[2]);
        }
        if j == 13 {
            reveal_strlit("OWF300");
            assert(OWA401@[2] != OWF300@[2]);
        }
        if j == 14 {
            reveal_strlit("OWF301");
            assert(OWA401@[2] != OWF301@[2]);
        }
        if j == 15 {
            reveal_strlit("OWF303");
            assert(OWA401@[2] != OWF303@[2]);
        }
        if j == 16 {
            reveal_strlit("OWF304");
            assert(OWA401@[2] != OWF304@[2]);
        }
        if j == 17 {
            reveal_strlit("OWA400");
            assert(OWA401@[5] != OWA400@[5]);
        }
    } else if k == 19 {
        reveal_strlit("OWA402");
        if j == 0 {
            reveal_strlit("OWUI001");
            assert(OWA402@.len() != OWUI001@.len());
        }
        if j == 1 {
            reveal_strlit("OWUI010");
            assert(OWA402@.len() != OWUI010@.len());
        }
        if j == 2 {
            reveal_strlit("OWUI011");
            assert(OWA402@.len() != OWUI011@.len());
        }
        if j == 3 {
            reveal_strlit("OWUI020");
            assert(OWA402@.len() != OWUI020@.len());
        }
        if j == 4 {
            reveal_strlit("OWUI021");
            assert(OWA402@.len() != OWUI021@.len());
        }
        if j == 5 {
            reveal_strlit("OWUI022");
            assert(OWA402@.len() != OWUI022@.len());
        }
        if j == 6 {
            reveal_strlit("OWUI023");
            assert(OWA402@.len() != OWUI023@.len());
        }
        if j == 7 {
            reveal_strlit("OWT100");
            assert(OWA402@[2] != OWT100@[2]);
        }
        if j == 8 {
            reveal_strlit("OWT101");
            assert(OWA402@[2] != OWT101@[2]);
        }
        if j == 9 {
            reveal_strlit("OWT102");
            assert(OWA402@[2] != OWT102@[2]);
        }
        if j == 10 {
            reveal_strlit("OWP200");
            assert(OWA402@[2] != OWP200@[2]);
        }
        if j == 11 {
            reveal_strlit("OWP201");
            assert(OWA402@[2] != OWP201@[2]);
        }
        if j == 12 {
            reveal_strlit("OWP202");
            assert(OWA402@[2] != OWP202@[2]);
        }
        if j == 13 {
            reveal_strlit("OWF300");
            assert(OWA402@[2] != OWF300@[2]);
        }
        if j == 14 {
            reveal_strlit("OWF301");
            assert(OWA402@[2] != OWF301@[2]);
        }
        if j == 15 {
            reveal_strlit("OWF303");
            assert(OWA402@[2] != OWF303@[2]);
        }
        if j == 16 {
            reveal_strlit("OWF304");
            assert(OWA402@[2] != OWF304@[2]);
        }
        if j == 17 {
            reveal_strlit("OWA400");
            assert(OWA402@[5] != OWA400@[5]);
        }
        if j == 18 {
            reveal_strlit("OWA401");
            assert(OWA402@[5] != OWA401@[5]);
        }
    } else if k == 20 {
        reveal_strlit("OWPL500");
        if j == 0 {
            reveal_strlit("OWUI001");
            assert(OWPL500@[2] != OWUI001@[2]);
        }
        if j == 1 {
            reveal_strlit("OWUI010");
            assert(OWPL500@[2] != OWUI010@[2]);
        }
        if j == 2 {
            reveal_strlit("OWUI011");
            assert(OWPL500@[2] != OWUI011@[2]);
        }
        if j == 3 {
            reveal_strlit("OWUI020");
            assert(OWPL500@[2] != OWUI020@[2]);
        }
        if j == 4 {
            reveal_strlit("OWUI021");
            assert(OWPL500@[2] != OWUI021@[2]);
        }
        if j == 5 {
            reveal_strlit("OWUI022");
            assert(OWPL500@[2] != OWUI022@[2]);
        }
        if j == 6 {
            reveal_strlit("OWUI023");
            assert(OWPL500@[2] != OWUI023@[2]);
        }
        if j == 7 {
            reveal_strlit("OWT100");
            assert(OWPL500@.len() != OWT100@.len());
        }
        if j == 8 {
            reveal_strlit("OWT101");
            assert(OWPL500@.len() != OWT101@.len());
        }
        if j == 9 {
            reveal_strlit("OWT102");
            assert(OWPL500@.len() != OWT102@.len());
        }
        if j == 10 {
            reveal_strlit("OWP200");
            assert(OWPL500@.len() != OWP200@.len());
        }
        if j == 11 {
            reveal_strlit("OWP201");
            assert(OWPL500@.len() != OWP201@.len());
        }
        if j == 12 {
            reveal_strlit("OWP202");
            assert(OWPL500@.len() != OWP202@.len());
        }
        if j == 13 {
            reveal_strlit("OWF300");
            assert(OWPL500@.len() != OWF300@.len());
        }
        if j == 14 {
            reveal_strlit("OWF301");
            assert(OWPL500@.len() != OWF301@.len());
        }
        if j == 15 {
            reveal_strlit("OWF303");
            assert(OWPL500@.len() != OWF303@.len());
        }
        if j == 16 {
            reveal_strlit("OWF304");
            assert(OWPL500@.len() != OWF304@.len());
        }
        if j == 17 {
            reveal_strlit("OWA400");
            assert(OWPL500@.len() != OWA400@.len());
        }
        if j == 18 {
            reveal_strlit("OWA401");
            assert(OWPL500@.len() != OWA401@.len());
        }
        if j == 19 {
            reveal_strlit("OWA402");
            assert(OWPL500@.len() != OWA402@.len());
        }
    } else if k == 21 {
        reveal_strlit("OWPL501");
        if j == 0 {
            reveal_strlit("OWUI001");
            assert(OWPL501@[2] != OWUI001@[2]);
        }
        if j == 1 {
            reveal_strlit("OWUI010");
            assert(OWPL501@[2] != OWUI010@[2]);
        }
        if j == 2 {
            reveal_strlit("OWUI011");
            assert(OWPL501@[2] != OWUI011@[2]);
        }
        if j == 3 {
            reveal_strlit("OWUI020");
            assert(OWPL501@[2] != OWUI020@[2]);
        }
        if j == 4 {
            reveal_strlit("OWUI021");
            assert(OWPL501@[2] != OWUI021@[2]);
        }
        if j == 5 {
            reveal_strlit("OWUI022");
            assert(OWPL501@[2] != OWUI022@[2]);
        }
        if j == 6 {
            reveal_strlit("OWUI023");
            assert(OWPL501@[2] != OWUI023@[2]);
        }
        if j == 7 {
            reveal_strlit("OWT100");
            assert(OWPL501@.len() != OWT100@.len());
        }
        if j == 8 {
            reveal_strlit("OWT101");
            assert(OWPL501@.len() != OWT101@.len());
        }
        if j == 9 {
            reveal_strlit("OWT102");
            assert(OWPL501@.len() != OWT102@.len());
        }
        if j == 10 {
            reveal_strlit("OWP200");
            assert(OWPL501@.len() != OWP200@.len());
        }
        if j == 11 {
            reveal_strlit("OWP201");
            assert(OWPL501@.len() != OWP201@.len());
        }
        if j == 12 {
            reveal_strlit("OWP202");
            assert(OWPL501@.len() != OWP202@.len());
        }
        if j == 13 {
            reveal_strlit("OWF300");
            assert(OWPL501@.len() != OWF300@.len());
        }
        if j == 14 {
            reveal_strlit("OWF301");
            assert(OWPL501@.len() != OWF301@.len());
        }
        if j == 15 {
            reveal_strlit("OWF303");
            assert(OWPL501@.len() != OWF303@.len());
        }
        if j == 16 {
            reveal_strlit("OWF304");
            assert(OWPL501@.len() != OWF304@.len());
        }
        if j == 17 {
            reveal_strlit("OWA400");
            assert(OWPL501@.len() != OWA400@.len());
        }
        if j == 18 {
            reveal_strlit("OWA401");
            assert(OWPL501@.len() != OWA401@.len());
        }
        if j == 19 {
            reveal_strlit("OWA402");
            assert(OWPL501@.len() != OWA402@.len());
        }
        if j == 20 {
            reveal_strlit("OWPL500");
            assert(OWPL501@[6] != OWPL500@[6]);
        }
    } else if k == 22 {
        reveal_strlit("OWUI030");
        if j == 0 {
            reveal_strlit("OWUI001");
            assert(OWUI030@[5] != OWUI001@[5]);
        }
        if j == 1 {
            reveal_strlit("OWUI010");
            assert(OWUI030@[5] != OWUI010@[5]);
        }
        if j == 2 {
            reveal_strlit("OWUI011");
            assert(OWUI030@[5] != OWUI011@[5]);
        }
        if j == 3 {
            reveal_strlit("OWUI020");
            assert(OWUI030@[5] != OWUI020@[5]);
        }
        if j == 4 {
            reveal_strlit("OWUI021");
            assert(OWUI030@[5] != OWUI021@[5]);
        }
        if j == 5 {
            reveal_strlit("OWUI022");
            assert(OWUI030@[5] != OWUI022@[5]);
        }
        if j == 6 {
            reveal_strlit("OWUI023");
            assert(OWUI030@[5] != OWUI023@[5]);
        }
        if j == 7 {
            reveal_strlit("OWT100");
            assert(OWUI030@.len() != OWT100@.len());
        }
        if j == 8 {
            reveal_strlit("OWT101");
            assert(OWUI030@.len() != OWT101@.len());
        }
        if j == 9 {
            reveal_strlit("OWT102");
            assert(OWUI030@.len() != OWT102@.len());
        }
        if j == 10 {
            reveal_strlit("OWP200");
            assert(OWUI030@.len() != OWP200@.len());
        }
        if j == 11 {
            reveal_strlit("OWP201");
            assert(OWUI030@.len() != OWP201@.len());
        }
        if j == 12 {
            reveal_strlit("OWP202");
            assert(OWUI030@.len() != OWP202@.len());
        }
        if j == 13 {
            reveal_strlit("OWF300");
            assert(OWUI030@.len() != OWF300@.len());
        }
        if j == 14 {
            reveal_strlit("OWF301");
            assert(OWUI030@.len() != OWF301@.len());
        }
        if j == 15 {
            reveal_strlit("OWF303");
            assert(OWUI030@.len() != OWF303@.len());
        }
        if j == 16 {
            reveal_strlit("OWF304");
            assert(OWUI030@.len() != OWF304@.len());
        }
        if j == 17 {
            reveal_strlit("OWA400");
            assert(OWUI030@.len() != OWA400@.len());
        }
        if j == 18 {
            reveal_strlit("OWA401");
            assert(OWUI030@.len() != OWA401@.len());
        }
        if j == 19 {
            reveal_strlit("OWA402");
            assert(OWUI030@.len() != OWA402@.len());
        }
        if j == 20 {
            reveal_strlit("OWPL500");
            assert(OWUI030@[2] != OWPL500@[2]);
        }
        if j == 21 {
            reveal_strlit("OWPL501");
            assert(OWUI030@[2] != OWPL501@[2]);
        }
    } else if k == 23 {
        reveal_strlit("OWUI031");
        if j == 0 {
            reveal_strlit("OWUI001");
            assert(OWUI031@[5] != OWUI001@[5]);
        }
        if j == 1 {
            reveal_strlit("OWUI010");
            assert(OWUI031@[5] != OWUI010@[5]);
        }
        if j == 2 {
            reveal_strlit("OWUI011");
            assert(OWUI031@[5] != OWUI011@[5]);
        }
        if j == 3 {
            reveal_strlit("OWUI020");
            assert(OWUI031@[5] != OWUI020@[5]);
        }
        if j == 4 {
            reveal_strlit("OWUI021");
            assert(OWUI031@[5] != OWUI021@[5]);
        }
        if j == 5 {
            reveal_strlit("OWUI022");
            assert(OWUI031@[5] != OWUI022@[5]);
        }
        if j == 6 {
            reveal_strlit("OWUI023");
            assert(OWUI031@[5] != OWUI023@[5]);
        }
        if j == 7 {
            reveal_strlit("OWT100");
            assert(OWUI031@.len() != OWT100@.len());
        }
        if j == 8 {
            reveal_strlit("OWT101");
            assert(OWUI031@.len() != OWT101@.len());
        }
        if j == 9 {
            reveal_strlit("OWT102");
            assert(OWUI031@.len() != OWT102@.len());
        }
        if j == 10 {
            reveal_strlit("OWP200");
            assert(OWUI031@.len() != OWP200@.len());
        }
        if j == 11 {
            reveal_strlit("OWP201");
            assert(OWUI031@.len() != OWP201@.len());
        }
        if j == 12 {
            reveal_strlit("OWP202");
            assert(OWUI031@.len() != OWP202@.len());
        }
        if j == 13 {
            reveal_strlit("OWF300");
            assert(OWUI031@.len() != OWF300@.len());
        }
        if j == 14 {
            reveal_strlit("OWF301");
            assert(OWUI031@.len() != OWF301@.len());
        }
        if j == 15 {
            reveal_strlit("OWF303");
            assert(OWUI031@.len() != OWF303@.len());
        }
        if j == 16 {
            reveal_strlit("OWF304");
            assert(OWUI031@.len() != OWF304@.len());
        }
        if j == 17 {
            reveal_strlit("OWA400");
            assert(OWUI031@.len() != OWA400@.len());
        }
        if j == 18 {
            reveal_strlit("OWA401");
            assert(OWUI031@.len() != OWA401@.len());
        }
        if j == 19 {
            reveal_strlit("OWA402");
            assert(OWUI031@.len() != OWA402@.len());
        }
        if j == 20 {
            reveal_strlit("OWPL500");
            assert(OWUI031@[2] != OWPL500@[2]);
        }
        if j == 21 {
            reveal_strlit("OWPL501");
            assert(OWUI031@[2] != OWPL501@[2]);
        }
        if j == 22 {
            reveal_strlit("OWUI030");
            assert(OWUI031@[6] != OWUI030@[6]);
        }
    } else if k == 24 {
        reveal_strlit("OWUI032");
        if j == 0 {
            reveal_strlit("OWUI001");
            assert(OWUI032@[5] != OWUI001@[5]);
        }
        if j == 1 {
            reveal_strlit("OWUI010");
            assert(OWUI032@[5] != OWUI010@[5]);
        }
        if j == 2 {
            reveal_strlit("OWUI011");
            assert(OWUI032@[5] != OWUI011@[5]);
        }
        if j == 3 {
            reveal_strlit("OWUI020");
            assert(OWUI032@[5] != OWUI020@[5]);
        }
        if j == 4 {
            reveal_strlit("OWUI021");
            assert(OWUI032@[5] != OWUI021@[5]);
        }
        if j == 5 {
            reveal_strlit("OWUI022");
            assert(OWUI032@[5] != OWUI022@[5]);
        }
        if j == 6 {
            reveal_strlit("OWUI023");
            assert(OWUI032@[5] != OWUI023@[5]);
        }
        if j == 7 {
            reveal_strlit("OWT100");
            assert(OWUI032@.len() != OWT100@.len());
        }
        if j == 8 {
            reveal_strlit("OWT101");
            assert(OWUI032@.len() != OWT101@.len());
        }
        if j == 9 {
            reveal_strlit("OWT102");
            assert(OWUI032@.len() != OWT102@.len());
        }
        if j == 10 {
            reveal_strlit("OWP200");
            assert(OWUI032@.len() != OWP200@.len());
        }
        if j == 11 {
            reveal_strlit("OWP201");
            assert(OWUI032@.len() != OWP201@.len());
        }
        if j == 12 {
            reveal_strlit("OWP202");
            assert(OWUI032@.len() != OWP202@.len());
        }
        if j == 13 {
            reveal_strlit("OWF300");
            assert(OWUI032@.len() != OWF300@.len());
        }
        if j == 14 {
            reveal_strlit("OWF301");
            assert(OWUI032@.len() != OWF301@.len());
        }
        if j == 15 {
            reveal_strlit("OWF303");
            assert(OWUI032@.len() != OWF303@.len());
        }
        if j == 16 {
            reveal_strlit("OWF304");
            assert(OWUI032@.len() != OWF304@.len());
        }
        if j == 17 {
            reveal_strlit("OWA400");
            assert(OWUI032@.len() != OWA400@.len());
        }
        if j == 18 {
            reveal_strlit("OWA401");
            assert(OWUI032@.len() != OWA401@.len());
        }
        if j == 19 {
            reveal_strlit("OWA402");
            assert(OWUI032@.len() != OWA402@.len());
        }
        if j == 20 {
            reveal_strlit("OWPL500");
            assert(OWUI032@[2] != OWPL500@[2]);
        }
        if j == 21 {
            reveal_strlit("OWPL501");
            assert(OWUI032@[2] != OWPL501@[2]);
        }
        if j == 22 {
            reveal_strlit("OWUI030");
            assert(OWUI032@[6] != OWUI030@[6]);
        }
        if j == 23 {
            reveal_strlit("OWUI031");
            assert(OWUI032@[6] != OWUI031@[6]);
        }
    }
}

/// No two rules of the catalog share an id.
pub proof fn lemma_catalog_ids_unique()
    ensures
        forall|i: int, j: int|
            0 <= i < catalog().len() && 0 <= j < catalog().len() && i != j ==> #[trigger] catalog()[i].id
                != #[trigger] catalog()[j].id,
{
    assert forall|i: int, j: int|
        0 <= i < catalog().len() && 0 <= j < catalog().len() && i != j implies #[trigger] catalog()[i].id
        != #[trigger] catalog()[j].id by {
        if i < j {
            lemma_id_only_at(j, i);
        } else {
            lemma_id_only_at(i, j);
        }
    }
}

/// Whether `c` is an ASCII digit.
pub open spec fn is_digit(c: char) -> bool {
    '0' <= c <= '9'
}

/// The rule-ID schema `OW<PREFIX><NNN>`: `OW`, a prefix naming the
/// extension type, and three digits whose hundreds digit is that prefix's
/// range (`UI` 0, `T` 1, `P` 2, `F` 3, `A` 4, `PL` 5).
pub open spec fn id_in_schema(id: Seq<char>) -> bool {
    let n = id.len() as int;
    &&& n >= 6
    &&& id[0] == 'O' && id[1] == 'W'
    &&& is_digit(id[n - 3]) && is_digit(id[n - 2]) && is_digit(id[n - 1])
    &&& {
        let prefix = id.subrange(2, n - 3);
        let range = id[n - 3];
        ||| prefix == seq!['U', 'I'] && range == '0'
        ||| prefix == seq!['T'] && range == '1'
        ||| prefix == seq!['P'] && range == '2'
        ||| prefix == seq!['F'] && range == '3'
        ||| prefix == seq!['A'] && range == '4'
        ||| prefix == seq!['P', 'L'] && range == '5'
    }
}

proof fn lemma_catalog_id_in_schema(k: int)
    requires
        0 <= k < catalog().len(),
    ensures
        id_in_schema(catalog()[k].id),
{
    lemma_catalog_id(k);
    if k == 0 {
        reveal_strlit("OWUI001");
        assert(OWUI001@.subrange(2, 4) =~= seq!['U', 'I']);
        assert(id_in_schema(OWUI001@));
    }
    if k == 1 {
        reveal_strlit("OWUI010");
        assert(OWUI010@.subrange(2, 4) =~= seq!['U', 'I']);
        assert(id_in_schema(OWUI010@));
    }
    if k == 2 {
        reveal_strlit("OWUI011");
        assert(OWUI011@.subrange(2, 4) =~= seq!['U', 'I']);
        assert(id_in_schema(OWUI011@));
    }
    if k == 3 {
        reveal_strlit("OWUI020");
        assert(OWUI020@.subrange(2, 4) =~= seq!['U', 'I']);
        assert(id_in_schema(OWUI020@));
    }
    if k == 4 {
        reveal_strlit("OWUI021");
        assert(OWUI021@.subrange(2, 4) =~= seq!['U', 'I']);
        assert(id_in_schema(OWUI021@));
    }
    if k == 5 {
        reveal_strlit("OWUI022");
        assert(OWUI022@.subrange(2, 4) =~= seq!['U', 'I']);
        assert(id_in_schema(OWUI022@));
    }
    if k == 6 {
        reveal_strlit("OWUI023");
        assert(OWUI023@.subrange(2, 4) =~= seq!['U', 'I']);
        assert(id_in_schema(OWUI023@));
    }
    if k == 7 {
        reveal_strlit("OWT100");
        assert(OWT100@.subrange(2, 3) =~= seq!['T']);
        assert(id_in_schema(OWT100@));
    }
    if k == 8 {
        reveal_strlit("OWT101");
        assert(OWT101@.subrange(2, 3) =~= seq!['T']);
        assert(id_in_schema(OWT101@));
    }
    if k == 9 {
        reveal_strlit("OWT102");
        assert(OWT102@.subrange(2, 3) =~= seq!['T']);
        assert(id_in_schema(OWT102@));
    }
    if k == 10 {
        reveal_strlit("OWP200");
        assert(OWP200@.subrange(2, 3) =~= seq!['P']);
        assert(id_in_schema(OWP200@));
    }
    if k == 11 {
        reveal_strlit("OWP201");
        assert(OWP201@.subrange(2, 3) =~= seq!['P']);
        assert(id_in_schema(OWP201@));
    }
    if k == 12 {
        reveal_strlit("OWP202");
        assert(OWP202@.subrange(2, 3) =~= seq!['P']);
        assert(id_in_schema(OWP202@));
    }
    if k == 13 {
        reveal_strlit("OWF300");
        assert(OWF300@.subrange(2, 3) =~= seq!['F']);
        assert(id_in_schema(OWF300@));
    }
    if k == 14 {
        reveal_strlit("OWF301");
        assert(OWF301@.subrange(2, 3) =~= seq!['F']);
        assert(id_in_schema(OWF301@));
    }
    if k == 15 {
        reveal_strlit("OWF303");
        assert(OWF303@.subrange(2, 3) =~= seq!['F']);
        assert(id_in_schema(OWF303@));
    }
    if k == 16 {
        reveal_strlit("OWF304");
        assert(OWF304@.subrange(2, 3) =~= seq!['F']);
        assert(id_in_schema(OWF304@));
    }
    if k == 17 {
        reveal_strlit("OWA400");
        assert(OWA400@.subrange(2, 3) =~= seq!['A']);
        assert(id_in_schema(OWA400@));
    }
    if k == 18 {
        reveal_strlit("OWA401");
        assert(OWA401@.subrange(2, 3) =~= seq!['A']);
        assert(id_in_schema(OWA401@));
    }
    if k == 19 {
        reveal_strlit("OWA402");
        assert(OWA402@.subrange(2, 3) =~= seq!['A']);
        assert(id_in_schema(OWA402@));
    }
    if k == 20 {
        reveal_strlit("OWPL500");
        assert(OWPL500@.subrange(2, 4) =~= seq!['P', 'L']);
        assert(id_in_schema(OWPL500@));
    }
    if k == 21 {
        reveal_strlit("OWPL501");
        assert(OWPL501@.subrange(2, 4) =~= seq!['P', 'L']);
        assert(id_in_schema(OWPL501@));
    }
    if k == 22 {
        reveal_strlit("OWUI030");
        assert(OWUI030@.subrange(2, 4) =~= seq!['U', 'I']);
        assert(id_in_schema(OWUI030@));
    }
    if k == 23 {
        reveal_strlit("OWUI031");
        assert(OWUI031@.subrange(2, 4) =~= seq!['U', 'I']);
        assert(id_in_schema(OWUI031@));
    }
    if k == 24 {
        reveal_strlit("OWUI032");
        assert(OWUI032@.subrange(2, 4) =~= seq!['U', 'I']);
        assert(id_in_schema(OWUI032@));
    }
}

/// Every rule ID of the catalog follows the schema `OW<PREFIX><NNN>`, with
/// its number in the range of its extension type.
pub proof fn lemma_catalog_ids_in_schema()
    ensures
        forall|k: int| 0 <= k < catalog().len() ==> id_in_schema(#[trigger] catalog()[k].id),
{
    assert forall|k: int| 0 <= k < catalog().len() implies id_in_schema(#[trigger] catalog()[k].id) by {
        lemma_catalog_id_in_schema(k);
    }
}

/// Every rule of the catalog, in catalog order.
pub fn all_rules() -> (v: Vec<RuleDoc>)
    ensures
        v@.len() == catalog().len(),
        forall|i: int| 0 <= i < v@.len() ==> #[trigger] v@[i].model() == catalog()[i],
{
    let mut v: Vec<RuleDoc> = Vec::new();
    v.push(RuleDoc {
        id: OWUI001,
        default_severity: Severity::Error,
        title: "Python syntax error",
        summary: "The file cannot be parsed as valid Python.",
        remediation: "Fix syntax errors first; run `python -m py_compile <file.py>` to confirm.",
        help_url: "https://docs.python.org/3/reference/index.html",
        openwebui_version: OPENWEBUI_BASELINE,
    });
    v.push(RuleDoc {
        id: OWUI010,
        default_severity: Severity::Warning,
        title: "No extension class detected",
        summary: "The file looks like an extension, but no Tools/Pipe/Filter/Action/Pipeline class was found.",
        remediation: "Define exactly one top-level extension class with a supported name.",
        help_url: "https://docs.openwebui.com/features/plugin/",
        openwebui_version: OPENWEBUI_BASELINE,
    });
    v.push(RuleDoc {
        id: OWUI011,
        default_severity: Severity::Error,
        title: "Mixed extension types",
        summary: "A file contains more than one extension type, which Open WebUI does not support.",
        remediation: "Keep one extension class per file and split other types into separate files.",
        help_url: "https://docs.openwebui.com/features/plugin/",
        openwebui_version: OPENWEBUI_BASELINE,
    });
    v.push(RuleDoc {
        id: OWUI020,
        default_severity: Severity::Warning,
        title: "Missing Valves class",
        summary: "Extensions should provide a nested `Valves` class for runtime configuration.",
        remediation: "Add `class Valves(BaseModel): ...` inside the extension class.",
        help_url: "https://docs.openwebui.com/features/plugin/tools/development/",
        openwebui_version: OPENWEBUI_BASELINE,
    });
    v.push(RuleDoc {
        id: OWUI021,
        default_severity: Severity::Warning,
        title: "Valves should inherit BaseModel",
        summary: "Valves configuration should inherit from `pydantic.BaseModel`.",
        remediation: "Change `class Valves:` to `class Valves(BaseModel):`.",
        help_url: "https://docs.openwebui.com/features/plugin/tools/development/",
        openwebui_version: OPENWEBUI_BASELINE,
    });
    v.push(RuleDoc {
        id: OWUI022,
        default_severity: Severity::Warning,
        title: "Valves not initialized",
        summary: "The extension does not initialize `self.valves` in `__init__`.",
        remediation: "Set `self.valves = self.Valves()` in `__init__`.",
        help_url: "https://docs.openwebui.com/features/plugin/tools/development/",
        openwebui_version: OPENWEBUI_BASELINE,
    });
    v.push(RuleDoc {
        id: OWUI023,
        default_severity: Severity::Warning,
        title: "Sensitive valve field not masked",
        summary: "A Valves field name suggests sensitive data (API key, token, password) but does not use the password input type to mask UI display.",
        remediation: "Add `json_schema_extra={\"input\": {\"type\": \"password\"}}` to the Field() definition.",
        help_url: "https://docs.openwebui.com/features/extensibility/plugin/development/valves#input-types",
        openwebui_version: OPENWEBUI_BASELINE,
    });
    v.push(RuleDoc {
        id: OWT100,
        default_severity: Severity::Error,
        title: "No public tool methods",
        summary: "Tools extension must expose at least one callable public method.",
        remediation: "Add an async public method (for example `async def search(...)`) to `Tools`.",
        help_url: "https://docs.openwebui.com/features/plugin/tools/",
        openwebui_version: OPENWEBUI_BASELINE,
    });
    v.push(RuleDoc {
        id: OWT101,
        default_severity: Severity::Warning,
        title: "Tool method missing docstring",
        summary: "Tool methods should include clear docstrings so users understand capabilities.",
        remediation: "Add a descriptive docstring to each public tool method.",
        help_url: "https://docs.openwebui.com/features/plugin/tools/",
        openwebui_version: OPENWEBUI_BASELINE,
    });
    v.push(RuleDoc {
        id: OWT102,
        default_severity: Severity::Warning,
        title: "Tool method should be async",
        summary: "Tool methods should be async; Open WebUI calls them in an async context and type-hints generate JSON schemas for the model.",
        remediation: "Use `async def method_name(...)` for all public tool methods.",
        help_url: "https://docs.openwebui.com/features/plugin/tools/",
        openwebui_version: OPENWEBUI_BASELINE,
    });
    v.push(RuleDoc {
        id: OWP200,
        default_severity: Severity::Error,
        title: "Pipe method missing",
        summary: "Pipe extension must define a `pipe` method.",
        remediation: "Add `async def pipe(self, body, ...)` to the `Pipe` class.",
        help_url: "https://docs.openwebui.com/features/plugin/functions/pipe/",
        openwebui_version: OPENWEBUI_BASELINE,
    });
    v.push(RuleDoc {
        id: OWP201,
        default_severity: Severity::Warning,
        title: "Pipe has inlet/outlet",
        summary: "Pipe extensions should not define `inlet` or `outlet` methods.",
        remediation: "Remove `inlet`/`outlet`, or convert this class to a `Filter` extension.",
        help_url: "https://docs.openwebui.com/features/plugin/functions/pipe/",
        openwebui_version: OPENWEBUI_BASELINE,
    });
    v.push(RuleDoc {
        id: OWP202,
        default_severity: Severity::Warning,
        title: "Pipe method should be async",
        summary: "Synchronous `pipe` methods reduce compatibility with Open WebUI runtime execution.",
        remediation: "Use `async def pipe(...)` and await I/O operations.",
        help_url: "https://docs.openwebui.com/features/plugin/functions/pipe/",
        openwebui_version: OPENWEBUI_BASELINE,
    });
    v.push(RuleDoc {
        id: OWF300,
        default_severity: Severity::Error,
        title: "Filter has no inlet/outlet/stream",
        summary: "Filter extension must implement `inlet`, `outlet`, `stream`, or a combination of them.",
        remediation: "Add at least one of `inlet`, `outlet`, or `stream` methods.",
        help_url: "https://docs.openwebui.com/features/plugin/functions/filter/",
        openwebui_version: OPENWEBUI_BASELINE,
    });
    v.push(RuleDoc {
        id: OWF301,
        default_severity: Severity::Warning,
        title: "inlet should return body",
        summary: "`Filter.inlet` should return the transformed request body.",
        remediation: "Return `body` (or the modified body) from `inlet`.",
        help_url: "https://docs.openwebui.com/features/plugin/functions/filter/",
        openwebui_version: OPENWEBUI_BASELINE,
    });
    v.push(RuleDoc {
        id: OWF303,
        default_severity: Severity::Warning,
        title: "Filter hook missing body parameter",
        summary: "`Filter.inlet` and `Filter.outlet` receive the request body as their `body` argument.",
        remediation: "Add a `body` parameter, e.g. `async def inlet(self, body: dict) -> dict`.",
        help_url: "https://docs.openwebui.com/features/plugin/functions/filter/",
        openwebui_version: OPENWEBUI_BASELINE,
    });
    v.push(RuleDoc {
        id: OWF304,
        default_severity: Severity::Warning,
        title: "Filter stream missing event parameter",
        summary: "`Filter.stream` receives each streamed chunk as its `event` argument.",
        remediation: "Add an `event` parameter, e.g. `def stream(self, event: dict) -> dict`.",
        help_url: "https://docs.openwebui.com/features/plugin/functions/filter/",
        openwebui_version: OPENWEBUI_BASELINE,
    });
    v.push(RuleDoc {
        id: OWA400,
        default_severity: Severity::Error,
        title: "Action method missing",
        summary: "Action extension must define an `action` method.",
        remediation: "Add `async def action(self, body, ...)` to the class.",
        help_url: "https://docs.openwebui.com/features/plugin/functions/action/",
        openwebui_version: OPENWEBUI_BASELINE,
    });
    v.push(RuleDoc {
        id: OWA401,
        default_severity: Severity::Warning,
        title: "Action should be async",
        summary: "Synchronous `action` methods may not behave correctly in async execution contexts.",
        remediation: "Use `async def action(...)` and await I/O operations.",
        help_url: "https://docs.openwebui.com/features/plugin/functions/action/",
        openwebui_version: OPENWEBUI_BASELINE,
    });
    v.push(RuleDoc {
        id: OWA402,
        default_severity: Severity::Warning,
        title: "Action missing body parameter",
        summary: "`Action.action` receives the message payload as its `body` argument.",
        remediation: "Add a `body` parameter, e.g. `async def action(self, body: dict, ...)`.",
        help_url: "https://docs.openwebui.com/features/plugin/functions/action/",
        openwebui_version: OPENWEBUI_BASELINE,
    });
    v.push(RuleDoc {
        id: OWPL500,
        default_severity: Severity::Error,
        title: "Pipeline missing processing hook",
        summary: "Pipeline extension must define `pipe` (pipe type), `pipes` (manifold type), or filter hooks (`inlet`/`outlet`/`stream`).",
        remediation: "Add `pipe` for a standard pipeline, `pipes` for a manifold returning multiple models, or filter hooks for a filter-type pipeline.",
        help_url: "https://docs.openwebui.com/pipelines/",
        openwebui_version: OPENWEBUI_BASELINE,
    });
    v.push(RuleDoc {
        id: OWPL501,
        default_severity: Severity::Warning,
        title: "Pipeline name not assigned",
        summary: "`Pipeline.__init__` should assign `self.name` for clearer labeling.",
        remediation: "Set `self.name = \"...\"` in `__init__`.",
        help_url: "https://docs.openwebui.com/pipelines/",
        openwebui_version: OPENWEBUI_BASELINE,
    });
    v.push(RuleDoc {
        id: OWUI030,
        default_severity: Severity::Warning,
        title: "Missing version in module header",
        summary: "The module docstring header does not include a `version:` field.",
        remediation: "Add `version: 0.1.0` (or your current version) to the module docstring.",
        help_url: "https://docs.openwebui.com/features/plugin/",
        openwebui_version: OPENWEBUI_BASELINE,
    });
    v.push(RuleDoc {
        id: OWUI031,
        default_severity: Severity::Warning,
        title: "Unpinned requirements in module header",
        summary: "One or more packages in `requirements:` lack a pinned version specifier.",
        remediation: "Pin each package, e.g. change `llama-index` to `llama-index==0.1.2`.",
        help_url: "https://docs.openwebui.com/features/plugin/",
        openwebui_version: OPENWEBUI_BASELINE,
    });
    v.push(RuleDoc {
        id: OWUI032,
        default_severity: Severity::Warning,
        title: "Missing title in module header",
        summary: "The module docstring header does not include a `title:` field, which Open WebUI uses as the display name in the UI.",
        remediation: "Add `title: My Extension Name` to the module docstring.",
        help_url: "https://docs.openwebui.com/features/plugin/",
        openwebui_version: OPENWEBUI_BASELINE,
    });
    assert(v@.map_values(|d: RuleDoc| d.model()) =~= catalog());
    assert forall|i: int| 0 <= i < v@.len() implies #[trigger] v@[i].model() == catalog()[i] by {
        assert(v@.map_values(|d: RuleDoc| d.model())[i] == v@[i].model());
    }
    v
}

/// The documentation of the rule named `rule_id`, if the catalog has it.
pub fn rule_doc(rule_id: &str) -> (r: Option<RuleDoc>)
    ensures
        r matches Some(d) ==> rule_model(rule_id@) == Some(d.model()),
        r is None ==> rule_model(rule_id@) is None,
{
    let rules = all_rules();
    let wanted = chars_of(rule_id);
    let mut i: usize = 0;
    while i < rules.len()
        invariant
            rules@.len() == catalog().len(),
            forall|k: int| 0 <= k < rules@.len() ==> #[trigger] rules@[k].model() == catalog()[k],
            wanted@ == rule_id@,
            i <= rules@.len(),
            rule_index_from(rule_id@, 0) == rule_index_from(rule_id@, i as int),
        decreases rules.len() - i,
    {
        let d = rules[i];
        let id = chars_of(d.id);
        assert(rules@[i as int].model() == catalog()[i as int]);
        if chars_eq(id.as_slice(), wanted.as_slice()) {
            return Some(d);
        }
        i += 1;
    }
    None
}

/// Whether `rule_id` names a rule of the catalog.
pub fn is_known_rule(rule_id: &str) -> (b: bool)
    ensures
        b == is_known(rule_id@),
{
    rule_doc(rule_id).is_some()
}

/// A finding of rule `rule_id` at the given place, with the rule's default
/// severity. The rule must be in the catalog.
pub fn issue(rule_id: &str, path: &str, line: usize, column: usize, message: &str) -> (r: Issue)
    requires
        is_known(rule_id@),
    ensures
        r.rule_id@ == rule_id@,
        r.severity == default_severity_of(rule_id@),
        r.message@ == message@,
        r.path@ == path@,
        r.line == line,
        r.column == column,
{
    let doc = rule_doc(rule_id);
    let severity = match doc {
        Some(d) => d.default_severity,
        None => Severity::Error,
    };
    let id_chars = chars_of(rule_id);
    let path_chars = chars_of(path);
    let message_chars = chars_of(message);
    Issue {
        rule_id: string_of(id_chars.as_slice()),
        severity,
        message: string_of(message_chars.as_slice()),
        path: string_of(path_chars.as_slice()),
        line,
        column,
    }
}

} // verus!

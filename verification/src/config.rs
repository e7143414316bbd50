//! Lint configuration: which files to lint and per-rule severity overrides,
//! read from a small YAML subset (`lint.include_patterns`, `lint.exclude_patterns`, `rules.*`).

use vstd::prelude::*;
use crate::models::SeverityOverride;
use crate::models::ascii_lower;
use crate::models::ascii_upper;
use crate::models::lower_char;
use crate::models::upper_char;
use crate::models::to_lower;
use crate::models::strs;
use crate::text::chars_of;
use crate::text::chars_eq;
use crate::text::slice_copy;
use crate::text::string_of;
use crate::text::trim;
use crate::text::trim_chars;
use crate::text::lines;
use crate::text::views;
use crate::text::lines_of;
use crate::text::starts_with;
use crate::text::ends_with;
use crate::text::starts_with_chars;
use crate::text::ends_with_chars;
use crate::text::index_of;
use crate::text::find_char;
use crate::text::trim_start_char;
use crate::text::trim_end_char;
use crate::text::trim_start_char_chars;
use crate::text::trim_end_char_chars;
use crate::glob::python_files_pattern;
use crate::util::without_comment;
use crate::util::comment_start_from;
use crate::util::indent_width;
use crate::text::trim_start;
use crate::text::trim_end;
use crate::text::is_ws;
use crate::text::lines_from;
use crate::text::strip_cr;
use crate::text::lemma_lines_from_skip;
use crate::util::indent;
use crate::util::strip_comment_chars;
use crate::util::indent_of;

verus! {

/// The severity a configuration value names, ignoring case and surrounding
/// whitespace: `error`, `warning` or `off`.
pub open spec fn severity_override_of(value: Seq<char>) -> Option<SeverityOverride> {
    let v = ascii_lower(trim(value));
    if v == "error"@ {
        Some(SeverityOverride::Error)
    } else if v == "warning"@ {
        Some(SeverityOverride::Warning)
    } else if v == "off"@ {
        Some(SeverityOverride::Off)
    } else {
        None
    }
}

/// The ASCII lowercase form of `s`.
pub fn lower_chars(s: &[char]) -> (v: Vec<char>)
    ensures
        v@ == ascii_lower(s@),
{
    let mut v: Vec<char> = Vec::new();
    let mut i: usize = 0;
    while i < s.len()
        invariant
            i <= s@.len(),
            v@ == ascii_lower(s@.subrange(0, i as int)),
        decreases s.len() - i,
    {
        v.push(to_lower(s[i]));
        assert(ascii_lower(s@.subrange(0, i + 1)) =~= ascii_lower(s@.subrange(0, i as int)).push(
            lower_char(s@[i as int]),
        ));
        i += 1;
    }
    assert(s@.subrange(0, i as int) =~= s@);
    v
}

pub fn to_upper(c: char) -> (r: char)
    ensures
        r == upper_char(c),
{
    if 'a' <= c && c <= 'z' {
        let u = (c as u8) - 32;
        u as char
    } else {
        c
    }
}

/// The ASCII uppercase form of `s`.
pub fn upper_chars(s: &[char]) -> (v: Vec<char>)
    ensures
        v@ == ascii_upper(s@),
{
    let mut v: Vec<char> = Vec::new();
    let mut i: usize = 0;
    while i < s.len()
        invariant
            i <= s@.len(),
            v@ == ascii_upper(s@.subrange(0, i as int)),
        decreases s.len() - i,
    {
        v.push(to_upper(s[i]));
        assert(ascii_upper(s@.subrange(0, i + 1)) =~= ascii_upper(s@.subrange(0, i as int)).push(
            upper_char(s@[i as int]),
        ));
        i += 1;
    }
    assert(s@.subrange(0, i as int) =~= s@);
    v
}

pub fn severity_override_of_chars(value: &[char]) -> (r: Option<SeverityOverride>)
    ensures
        r == severity_override_of(value@),
{
    let t = trim_chars(value);
    let v = lower_chars(t.as_slice());
    if chars_eq(v.as_slice(), chars_of("error").as_slice()) {
        Some(SeverityOverride::Error)
    } else if chars_eq(v.as_slice(), chars_of("warning").as_slice()) {
        Some(SeverityOverride::Warning)
    } else if chars_eq(v.as_slice(), chars_of("off").as_slice()) {
        Some(SeverityOverride::Off)
    } else {
        None
    }
}

impl SeverityOverride {
    /// The severity `value` names (`error`, `warning` or `off`, any case,
    /// surrounding whitespace ignored), or `None`.
    pub fn parse(value: &str) -> (r: Option<SeverityOverride>)
        ensures
            r == severity_override_of(value@),
    {
        let c = chars_of(value);
        severity_override_of_chars(c.as_slice())
    }
}

/// One configured override.
#[derive(Debug, Clone, PartialEq, Eq)]
pub struct RuleOverride {
    pub rule_id: String,
    pub severity: SeverityOverride,
}

/// Rule overrides, each rule at most once, in order of first mention: a
/// map from rule ID to severity, kept as a list whose keys are unique
/// (`keys_unique`), since lookups in a std map keyed by `String` are not
/// specified precisely enough to prove anything of them. Where the order of
/// the IDs matters (the unknown-override warning), they are sorted.
#[derive(Debug, Clone, PartialEq, Eq)]
pub struct RuleOverrides {
    pub entries: Vec<RuleOverride>,
}

/// The association list of an override table.
pub open spec fn override_pairs(v: Seq<RuleOverride>) -> Seq<(Seq<char>, SeverityOverride)> {
    v.map_values(|o: RuleOverride| (o.rule_id@, o.severity))
}

/// The value for `key` in an association list, if any.
pub open spec fn lookup(pairs: Seq<(Seq<char>, SeverityOverride)>, key: Seq<char>) -> Option<
    SeverityOverride,
>
    decreases pairs.len(),
{
    if pairs.len() == 0 {
        None
    } else if pairs.last().0 == key {
        Some(pairs.last().1)
    } else {
        lookup(pairs.drop_last(), key)
    }
}

/// `pairs` with `key` mapped to `value`: replaced in place when present,
/// appended otherwise (as a map insert keeps the first mention's position).
pub open spec fn assoc_insert(
    pairs: Seq<(Seq<char>, SeverityOverride)>,
    key: Seq<char>,
    value: SeverityOverride,
) -> Seq<(Seq<char>, SeverityOverride)> {
    if exists|i: int| 0 <= i < pairs.len() && #[trigger] pairs[i].0 == key {
        let i = choose|i: int| 0 <= i < pairs.len() && #[trigger] pairs[i].0 == key;
        pairs.update(i, (key, value))
    } else {
        pairs.push((key, value))
    }
}

/// No key occurs twice.
pub open spec fn keys_unique(pairs: Seq<(Seq<char>, SeverityOverride)>) -> bool {
    forall|i: int, j: int|
        0 <= i < pairs.len() && 0 <= j < pairs.len() && i != j ==> #[trigger] pairs[i].0
            != #[trigger] pairs[j].0
}

impl View for RuleOverrides {
    type V = Seq<(Seq<char>, SeverityOverride)>;

    open spec fn view(&self) -> Seq<(Seq<char>, SeverityOverride)> {
        override_pairs(self.entries@)
    }
}

impl RuleOverrides {
    /// An empty table.
    pub fn new() -> (r: RuleOverrides)
        ensures
            r@ == Seq::<(Seq<char>, SeverityOverride)>::empty(),
    {
        let r = RuleOverrides { entries: Vec::new() };
        assert(r@ =~= Seq::<(Seq<char>, SeverityOverride)>::empty());
        r
    }

    /// Position of the entry for `key`.
    fn position(&self, key: &[char]) -> (r: Option<usize>)
        ensures
            r matches Some(i) ==> i < self@.len() && self@[i as int].0 == key@,
            r is None ==> forall|i: int| 0 <= i < self@.len() ==> #[trigger] self@[i].0 != key@,
    {
        let mut i: usize = 0;
        while i < self.entries.len()
            invariant
                i <= self@.len(),
                self@.len() == self.entries@.len(),
                forall|k: int| 0 <= k < i ==> #[trigger] self@[k].0 != key@,
            decreases self.entries.len() - i,
        {
            let c = chars_of(self.entries[i].rule_id.as_str());
            if chars_eq(c.as_slice(), key) {
                return Some(i);
            }
            i += 1;
        }
        None
    }

    /// Map `key` to `value`, replacing an earlier value for the same key.
    pub fn insert(&mut self, key: &[char], value: SeverityOverride)
        requires
            keys_unique(old(self)@),
        ensures
            final(self)@ == assoc_insert(old(self)@, key@, value),
            keys_unique(final(self)@),
    {
        let ghost before = self@;
        match self.position(key) {
            Some(i) => {
                let entry = RuleOverride { rule_id: string_of(key), severity: value };
                self.entries.set(i, entry);
                proof {
                    let j = choose|j: int| 0 <= j < before.len() && #[trigger] before[j].0 == key@;
                    assert(j == i) by {
                        if j != i {
                            assert(before[j].0 != before[i as int].0);
                        }
                    }
                    assert(self@ =~= before.update(i as int, (key@, value)));
                }
            },
            None => {
                let entry = RuleOverride { rule_id: string_of(key), severity: value };
                self.entries.push(entry);
                assert(self@ =~= before.push((key@, value)));
            },
        }
    }

    /// The override configured for `rule_id`, if any.
    pub fn get(&self, rule_id: &str) -> (r: Option<SeverityOverride>)
        requires
            keys_unique(self@),
        ensures
            r == lookup(self@, rule_id@),
    {
        let key = chars_of(rule_id);
        let r = self.position(key.as_slice());
        proof {
            lemma_lookup(self@, rule_id@);
        }
        match r {
            Some(i) => Some(self.entries[i].severity),
            None => None,
        }
    }

    /// Whether `rule_id` has an override.
    pub fn contains_key(&self, rule_id: &str) -> (r: bool)
        requires
            keys_unique(self@),
        ensures
            r == (lookup(self@, rule_id@) is Some),
    {
        self.get(rule_id).is_some()
    }
}

/// With unique keys, `lookup` finds the entry whose key matches.
pub proof fn lemma_lookup(pairs: Seq<(Seq<char>, SeverityOverride)>, key: Seq<char>)
    requires
        keys_unique(pairs),
    ensures
        forall|i: int|
            0 <= i < pairs.len() && #[trigger] pairs[i].0 == key ==> lookup(pairs, key) == Some(
                pairs[i].1,
            ),
        (forall|i: int| 0 <= i < pairs.len() ==> #[trigger] pairs[i].0 != key) ==> lookup(
            pairs,
            key,
        ) is None,
    decreases pairs.len(),
{
    if pairs.len() > 0 {
        let rest = pairs.drop_last();
        assert(keys_unique(rest));
        lemma_lookup(rest, key);
        assert forall|i: int| 0 <= i < pairs.len() && #[trigger] pairs[i].0 == key implies lookup(
            pairs,
            key,
        ) == Some(pairs[i].1) by {
            if i < pairs.len() - 1 {
                assert(rest[i] == pairs[i]);
                assert(pairs[i].0 != pairs[pairs.len() - 1].0);
            }
        }
        if forall|i: int| 0 <= i < pairs.len() ==> #[trigger] pairs[i].0 != key {
            assert forall|i: int| 0 <= i < rest.len() implies #[trigger] rest[i].0 != key by {
                assert(rest[i] == pairs[i]);
            }
        }
    }
}


/// Overriding a rule again replaces its earlier value: a lookup gives the
/// last value set, and the overrides of other rules stay as they were.
pub proof fn lemma_override_last_wins(
    pairs: Seq<(Seq<char>, SeverityOverride)>,
    key: Seq<char>,
    value: SeverityOverride,
    other: Seq<char>,
)
    requires
        keys_unique(pairs),
    ensures
        keys_unique(assoc_insert(pairs, key, value)),
        lookup(assoc_insert(pairs, key, value), key) == Some(value),
        other != key ==> lookup(assoc_insert(pairs, key, value), other) == lookup(pairs, other),
{
    let np = assoc_insert(pairs, key, value);
    if exists|i: int| 0 <= i < pairs.len() && #[trigger] pairs[i].0 == key {
        let i = choose|i: int| 0 <= i < pairs.len() && #[trigger] pairs[i].0 == key;
        assert(np == pairs.update(i, (key, value)));
        assert forall|a: int, b: int|
            0 <= a < np.len() && 0 <= b < np.len() && a != b implies #[trigger] np[a].0
            != #[trigger] np[b].0 by {
            assert(pairs[a].0 != pairs[b].0);
        }
        lemma_lookup(np, key);
        assert(np[i] == (key, value));
        assert(np[i].0 == key);
        assert(lookup(np, key) == Some(np[i].1));
        lemma_lookup(np, other);
        lemma_lookup(pairs, other);
        if other != key {
            if exists|k: int| 0 <= k < pairs.len() && #[trigger] pairs[k].0 == other {
                let k = choose|k: int| 0 <= k < pairs.len() && #[trigger] pairs[k].0 == other;
                assert(np[k] == pairs[k]);
            } else {
                assert forall|k: int| 0 <= k < np.len() implies #[trigger] np[k].0 != other by {
                    if k != i {
                        assert(np[k] == pairs[k]);
                    }
                }
            }
        }
    } else {
        assert(np == pairs.push((key, value)));
        assert forall|a: int, b: int|
            0 <= a < np.len() && 0 <= b < np.len() && a != b implies #[trigger] np[a].0
            != #[trigger] np[b].0 by {
            if a < pairs.len() && b < pairs.len() {
                assert(pairs[a].0 != pairs[b].0);
            }
        }
        assert(np.drop_last() =~= pairs);
        assert(np.last() == (key, value));
        assert(lookup(np, key) == Some(value));
    }
}

/// The key of the inclusion list.
pub open spec fn include_key() -> Seq<char> {
    seq!['i', 'n', 'c', 'l', 'u', 'd', 'e']
}

/// The key of the exclusion list.
pub open spec fn exclude_key() -> Seq<char> {
    seq!['e', 'x', 'c', 'l', 'u', 'd', 'e']
}

fn include_key_chars() -> (v: Vec<char>)
    ensures
        v@ == include_key(),
{
    let v = vec!['i', 'n', 'c', 'l', 'u', 'd', 'e'];
    assert(v@ =~= include_key());
    v
}

fn exclude_key_chars() -> (v: Vec<char>)
    ensures
        v@ == exclude_key(),
{
    let v = vec!['e', 'x', 'c', 'l', 'u', 'd', 'e'];
    assert(v@ =~= exclude_key());
    v
}

/// Lint configuration.
#[derive(Debug, Clone, PartialEq, Eq)]
pub struct Config {
    pub include_patterns: Vec<String>,
    pub exclude_patterns: Vec<String>,
    pub rule_overrides: RuleOverrides,
}

#[verifier::ext_equal]
pub struct ConfigModel {
    pub include_patterns: Seq<Seq<char>>,
    pub exclude_patterns: Seq<Seq<char>>,
    pub overrides: Seq<(Seq<char>, SeverityOverride)>,
}

impl View for Config {
    type V = ConfigModel;

    open spec fn view(&self) -> ConfigModel {
        ConfigModel {
            include_patterns: strs(self.include_patterns@),
            exclude_patterns: strs(self.exclude_patterns@),
            overrides: self.rule_overrides@,
        }
    }
}

/// The configuration used when no file is given: every `.py` file, minus
/// version-control, virtual-env and bytecode-cache directories.
pub open spec fn default_config() -> ConfigModel {
    ConfigModel {
        include_patterns: seq!["**/*.py"@],
        exclude_patterns: seq![".git/**"@, ".venv/**"@, "**/__pycache__/**"@],
        overrides: Seq::empty(),
    }
}

impl Config {
    /// Whether the override table holds each rule at most once.
    pub open spec fn wf(&self) -> bool {
        keys_unique(self.rule_overrides@)
    }
}

impl Default for Config {
    fn default() -> (r: Config)
        ensures
            r@ == default_config(),
            r.wf(),
    {
        let mut inc: Vec<String> = Vec::new();
        inc.push(string_of(chars_of("**/*.py").as_slice()));
        let mut exc: Vec<String> = Vec::new();
        exc.push(string_of(chars_of(".git/**").as_slice()));
        exc.push(string_of(chars_of(".venv/**").as_slice()));
        exc.push(string_of(chars_of("**/__pycache__/**").as_slice()));
        let r = Config { include_patterns: inc, exclude_patterns: exc, rule_overrides: RuleOverrides::new() };
        assert(r@.include_patterns =~= default_config().include_patterns);
        assert(r@.exclude_patterns =~= default_config().exclude_patterns);
        r
    }
}

/// A value without one pair of matching surrounding quotes.
pub open spec fn unquote(v: Seq<char>) -> Seq<char> {
    if v.len() >= 2 && ((v[0] == '"' && v.last() == '"') || (v[0] == '\'' && v.last() == '\'')) {
        v.subrange(1, v.len() - 1)
    } else {
        v
    }
}

pub fn unquote_chars(v: &[char]) -> (r: Vec<char>)
    ensures
        r@ == unquote(v@),
{
    let n = v.len();
    if n >= 2 && ((v[0] == '"' && v[n - 1] == '"') || (v[0] == '\'' && v[n - 1] == '\'')) {
        slice_copy(v, 1, n - 1)
    } else {
        slice_copy(v, 0, n)
    }
}

/// `unquote` on a `str`.
pub fn unquote_str(value: &str) -> (r: &str)
    ensures
        r@ == unquote(value@),
{
    let v = chars_of(value);
    let n = v.len();
    if n >= 2 && ((v[0] == '"' && v[n - 1] == '"') || (v[0] == '\'' && v[n - 1] == '\'')) {
        value.substring_char(1, n - 1)
    } else {
        value.substring_char(0, n)
    }
}

/// `line` split at its first colon.
pub open spec fn split_once_colon(line: Seq<char>) -> Option<(Seq<char>, Seq<char>)> {
    match index_of(line, ':') {
        Some(i) => Some((line.subrange(0, i), line.subrange(i + 1, line.len() as int))),
        None => None,
    }
}

/// `line` split at its first colon, as `str::split_once(':')` does.
pub fn split_key_value(line: &str) -> (r: Option<(&str, &str)>)
    ensures
        r matches Some((k, v)) ==> split_once_colon(line@) == Some((k@, v@)),
        r is None ==> split_once_colon(line@) is None,
{
    let c = chars_of(line);
    match find_char(c.as_slice(), ':') {
        Some(i) => {
            proof {
                crate::text::lemma_find_from_bounds(c@, seq![':'], 0);
            }
            let n = c.len();
            assert(i + 1 <= n);
            Some((line.substring_char(0, i), line.substring_char(i + 1, n)))
        },
        None => None,
    }
}

/// The state of the config reader between lines.
pub struct YamlState {
    pub cfg: ConfigModel,
    pub section: Seq<char>,
    pub list_key: Seq<char>,
}

/// How one config line changes the reader's state. Top-level keys open a
/// section; under `lint`, the two list keys start a (fresh) list and
/// `- value` items extend it; under `rules`, `ID: severity` sets an override
/// for the upper-cased id when the severity is recognised.
pub open spec fn yaml_step(st: YamlState, raw: Seq<char>) -> YamlState {
    let lwc = without_comment(raw);
    let line = trim(lwc);
    if line.len() == 0 {
        st
    } else if indent(lwc) == 0 {
        if ends_with(line, seq![':']) {
            YamlState { section: trim(line.drop_last()), list_key: Seq::empty(), ..st }
        } else {
            YamlState { list_key: Seq::empty(), ..st }
        }
    } else if st.section == "lint"@ {
        if indent(lwc) <= 2 && ends_with(line, seq![':']) {
            let key = trim(trim_end_char(line, ':'));
            let cfg = if key == include_key() {
                ConfigModel { include_patterns: Seq::empty(), ..st.cfg }
            } else if key == exclude_key() {
                ConfigModel { exclude_patterns: Seq::empty(), ..st.cfg }
            } else {
                st.cfg
            };
            YamlState { cfg, list_key: key, ..st }
        } else if starts_with(line, seq!['-']) && (st.list_key == include_key() || st.list_key
            == exclude_key()) {
            let value = unquote(trim(trim_start_char(line, '-')));
            if value.len() == 0 {
                st
            } else if st.list_key == include_key() {
                YamlState { cfg: ConfigModel { include_patterns: st.cfg.include_patterns.push(value), ..st.cfg }, ..st }
            } else {
                YamlState { cfg: ConfigModel { exclude_patterns: st.cfg.exclude_patterns.push(value), ..st.cfg }, ..st }
            }
        } else {
            st
        }
    } else if st.section == "rules"@ {
        match split_once_colon(line) {
            Some((k, v)) => {
                let key = ascii_upper(trim(k));
                if key.len() == 0 {
                    st
                } else {
                    match severity_override_of(unquote(trim(v))) {
                        Some(sev) => YamlState {
                            cfg: ConfigModel {
                                overrides: assoc_insert(st.cfg.overrides, key, sev),
                                ..st.cfg
                            },
                            ..st
                        },
                        None => st,
                    }
                }
            },
            None => st,
        }
    } else {
        st
    }
}

/// The reader's state after lines `ls[i..]`.
pub open spec fn yaml_from(ls: Seq<Seq<char>>, i: int, st: YamlState) -> YamlState
    decreases ls.len() - i,
{
    if i < 0 || i >= ls.len() {
        st
    } else {
        yaml_from(ls, i + 1, yaml_step(st, ls[i]))
    }
}

/// The configuration a config file's text describes: the defaults, changed
/// line by line, with `**/*.py` restored when the inclusion list ends up empty.
pub open spec fn config_of(input: Seq<char>) -> ConfigModel {
    let st = yaml_from(
        lines(input),
        0,
        YamlState { cfg: default_config(), section: Seq::empty(), list_key: Seq::empty() },
    );
    if st.cfg.include_patterns.len() == 0 {
        ConfigModel { include_patterns: seq!["**/*.py"@], ..st.cfg }
    } else {
        st.cfg
    }
}

fn yaml_step_exec(cfg: &mut Config, section: &mut Vec<char>, list_key: &mut Vec<char>, raw: &[char])
    requires
        old(cfg).wf(),
    ensures
        final(cfg).wf(),
        yaml_step(YamlState { cfg: old(cfg)@, section: old(section)@, list_key: old(list_key)@ }, raw@)
            == (YamlState { cfg: final(cfg)@, section: final(section)@, list_key: final(list_key)@ }),
{
    let ghost st = YamlState { cfg: cfg@, section: section@, list_key: list_key@ };
    let lwc = strip_comment_chars(raw);
    let line = trim_chars(lwc.as_slice());
    if line.len() == 0 {
        return;
    }
    let ind = indent_of(lwc.as_slice());
    let colon: Vec<char> = vec![':'];
    let dash: Vec<char> = vec!['-'];
    assert(colon@ =~= seq![':']);
    assert(dash@ =~= seq!['-']);
    if ind == 0 {
        if ends_with_chars(line.as_slice(), colon.as_slice()) {
            let head = slice_copy(line.as_slice(), 0, line.len() - 1);
            assert(head@ =~= line@.drop_last());
            *section = trim_chars(head.as_slice());
        }
        *list_key = Vec::new();
        assert(list_key@ =~= Seq::<char>::empty());
        return;
    }
    if chars_eq(section.as_slice(), chars_of("lint").as_slice()) {
        if ind <= 2 && ends_with_chars(line.as_slice(), colon.as_slice()) {
            let k0 = trim_end_char_chars(line.as_slice(), ':');
            let key = trim_chars(k0.as_slice());
            if chars_eq(key.as_slice(), include_key_chars().as_slice()) {
                cfg.include_patterns = Vec::new();
                assert(cfg@.include_patterns =~= Seq::<Seq<char>>::empty());
            } else if chars_eq(key.as_slice(), exclude_key_chars().as_slice()) {
                cfg.exclude_patterns = Vec::new();
                assert(cfg@.exclude_patterns =~= Seq::<Seq<char>>::empty());
            }
            *list_key = key;
            return;
        }
        let is_include = chars_eq(list_key.as_slice(), include_key_chars().as_slice());
        let is_exclude = chars_eq(list_key.as_slice(), exclude_key_chars().as_slice());
        if starts_with_chars(line.as_slice(), dash.as_slice()) && (is_include || is_exclude) {
            let v0 = trim_start_char_chars(line.as_slice(), '-');
            let v1 = trim_chars(v0.as_slice());
            let value = unquote_chars(v1.as_slice());
            if value.len() == 0 {
                return;
            }
            let ghost before = cfg@;
            if is_include {
                cfg.include_patterns.push(string_of(value.as_slice()));
                assert(cfg@.include_patterns =~= before.include_patterns.push(value@));
            } else {
                cfg.exclude_patterns.push(string_of(value.as_slice()));
                assert(cfg@.exclude_patterns =~= before.exclude_patterns.push(value@));
            }
        }
        return;
    }
    if chars_eq(section.as_slice(), chars_of("rules").as_slice()) {
        match find_char(line.as_slice(), ':') {
            Some(i) => {
                proof {
                    crate::text::lemma_find_from_bounds(line@, seq![':'], 0);
                }
                let k = slice_copy(line.as_slice(), 0, i);
                let v = slice_copy(line.as_slice(), i + 1, line.len());
                let kt = trim_chars(k.as_slice());
                let key = upper_chars(kt.as_slice());
                if key.len() == 0 {
                    return;
                }
                let vt = trim_chars(v.as_slice());
                let vu = unquote_chars(vt.as_slice());
                match severity_override_of_chars(vu.as_slice()) {
                    Some(sev) => {
                        cfg.rule_overrides.insert(key.as_slice(), sev);
                    },
                    None => {},
                }
            },
            None => {},
        }
    }
}

/// Read a config file's text (the YAML subset described in the docs). Unknown
/// keys and unrecognised severities are ignored, so reading never fails.
pub fn parse_yaml_config(input: &str) -> (r: Result<Config, String>)
    ensures
        r matches Ok(c) ==> c@ == config_of(input@) && c.wf(),
        r is Ok,
{
    let text = chars_of(input);
    let ls = lines_of(text.as_slice());
    let mut cfg = Config::default();
    let mut section: Vec<char> = Vec::new();
    let mut list_key: Vec<char> = Vec::new();
    let ghost init = YamlState { cfg: default_config(), section: Seq::empty(), list_key: Seq::empty() };
    assert(section@ =~= Seq::<char>::empty());
    assert(list_key@ =~= Seq::<char>::empty());
    let mut i: usize = 0;
    while i < ls.len()
        invariant
            i <= ls@.len(),
            views(ls@) == lines(input@),
            cfg.wf(),
            yaml_from(lines(input@), 0, init) == yaml_from(
                lines(input@),
                i as int,
                YamlState { cfg: cfg@, section: section@, list_key: list_key@ },
            ),
        decreases ls.len() - i,
    {
        assert(views(ls@)[i as int] == ls@[i as int]@);
        yaml_step_exec(&mut cfg, &mut section, &mut list_key, ls[i].as_slice());
        i += 1;
    }
    if cfg.include_patterns.len() == 0 {
        cfg.include_patterns.push(string_of(chars_of("**/*.py").as_slice()));
        assert(cfg@.include_patterns =~= seq!["**/*.py"@]);
    }
    Ok(cfg)
}

/// Whether every key of `pairs` is in ASCII upper case.
pub open spec fn keys_upper(pairs: Seq<(Seq<char>, SeverityOverride)>) -> bool {
    forall|i: int| 0 <= i < pairs.len() ==> ascii_upper(#[trigger] pairs[i].0) == pairs[i].0
}

proof fn lemma_upper_idempotent(s: Seq<char>)
    ensures
        ascii_upper(ascii_upper(s)) == ascii_upper(s),
{
    assert forall|i: int| 0 <= i < s.len() implies #[trigger] upper_char(upper_char(s[i])) == upper_char(
        s[i],
    ) by {
        let c = s[i];
        if 'a' <= c && c <= 'z' {
            let u = ((c as u8) - 32) as u8;
            assert(65 <= u <= 90);
            assert(!('a' <= (u as char) && (u as char) <= 'z'));
        }
    }
    assert(ascii_upper(ascii_upper(s)) =~= ascii_upper(s));
}

proof fn lemma_insert_keeps_keys_upper(
    pairs: Seq<(Seq<char>, SeverityOverride)>,
    key: Seq<char>,
    value: SeverityOverride,
)
    requires
        keys_upper(pairs),
        ascii_upper(key) == key,
    ensures
        keys_upper(assoc_insert(pairs, key, value)),
{
    let np = assoc_insert(pairs, key, value);
    assert forall|j: int| 0 <= j < np.len() implies ascii_upper(#[trigger] np[j].0) == np[j].0 by {
        if j < pairs.len() && np[j].0 != key {
            assert(np[j] == pairs[j]);
        }
    }
}

proof fn lemma_step_keeps_keys_upper(st: YamlState, raw: Seq<char>)
    requires
        keys_upper(st.cfg.overrides),
    ensures
        keys_upper(yaml_step(st, raw).cfg.overrides),
{
    let lwc = without_comment(raw);
    let line = trim(lwc);
    if line.len() > 0 && indent(lwc) != 0 && st.section != "lint"@ && st.section == "rules"@ {
        match split_once_colon(line) {
            Some((k, v)) => {
                let key = ascii_upper(trim(k));
                lemma_upper_idempotent(trim(k));
                let pairs = st.cfg.overrides;
                match severity_override_of(unquote(trim(v))) {
                    Some(sev) => {
                        if key.len() > 0 {
                            lemma_insert_keeps_keys_upper(pairs, key, sev);
                        }
                    },
                    None => {},
                }
            },
            None => {},
        }
    }
}

proof fn lemma_from_keeps_keys_upper(ls: Seq<Seq<char>>, i: int, st: YamlState)
    requires
        keys_upper(st.cfg.overrides),
    ensures
        keys_upper(yaml_from(ls, i, st).cfg.overrides),
    decreases ls.len() - i,
{
    if 0 <= i < ls.len() {
        lemma_step_keeps_keys_upper(st, ls[i]);
        lemma_from_keeps_keys_upper(ls, i + 1, yaml_step(st, ls[i]));
    }
}

/// Rule IDs in a config file are case-insensitive: every override that a
/// config text sets is keyed by the rule ID in upper case. The inclusion list
/// of a read configuration is never empty.
pub proof fn lemma_config_keys_upper(input: Seq<char>)
    ensures
        keys_upper(config_of(input).overrides),
        config_of(input).include_patterns.len() > 0,
{
    lemma_from_keeps_keys_upper(
        lines(input),
        0,
        YamlState { cfg: default_config(), section: Seq::empty(), list_key: Seq::empty() },
    );
}

/// The default configuration includes the files of the pattern `**/*.py`,
/// every Python file, and nothing else.
pub proof fn lemma_default_includes_python_files()
    ensures
        default_config().include_patterns == seq![python_files_pattern()],
{
    reveal_strlit("**/*.py");
    assert("**/*.py"@ =~= python_files_pattern());
    assert(default_config().include_patterns =~= seq![python_files_pattern()]);
}

/// Reading lines past `l1` in `l1 + l2` reads `l2`.
proof fn lemma_yaml_shift(l1: Seq<Seq<char>>, l2: Seq<Seq<char>>, j: int, st: YamlState)
    requires
        0 <= j,
    ensures
        yaml_from(l1 + l2, l1.len() + j, st) == yaml_from(l2, j, st),
    decreases l2.len() - j,
{
    if j < l2.len() {
        assert((l1 + l2)[l1.len() + j] == l2[j]);
        lemma_yaml_shift(l1, l2, j + 1, yaml_step(st, l2[j]));
    }
}

/// Reading `l1 + l2` reads `l1`, then `l2` from the state `l1` left.
pub proof fn lemma_yaml_concat(l1: Seq<Seq<char>>, l2: Seq<Seq<char>>, i: int, st: YamlState)
    requires
        0 <= i <= l1.len(),
    ensures
        yaml_from(l1 + l2, i, st) == yaml_from(l2, 0, yaml_from(l1, i, st)),
    decreases l1.len() - i,
{
    if i < l1.len() {
        assert((l1 + l2)[i] == l1[i]);
        lemma_yaml_concat(l1, l2, i + 1, yaml_step(st, l1[i]));
    } else {
        lemma_yaml_shift(l1, l2, 0, st);
    }
}

proof fn lemma_step_keeps_keys_unique(st: YamlState, raw: Seq<char>)
    requires
        keys_unique(st.cfg.overrides),
    ensures
        keys_unique(yaml_step(st, raw).cfg.overrides),
{
    let lwc = without_comment(raw);
    let line = trim(lwc);
    if line.len() > 0 && indent(lwc) != 0 && st.section != "lint"@ && st.section == "rules"@ {
        match split_once_colon(line) {
            Some((k, v)) => {
                let key = ascii_upper(trim(k));
                match severity_override_of(unquote(trim(v))) {
                    Some(sev) => {
                        if key.len() > 0 {
                            lemma_override_last_wins(st.cfg.overrides, key, sev, key);
                        }
                    },
                    None => {},
                }
            },
            None => {},
        }
    }
}

/// Reading lines keeps each rule in the override table at most once.
pub proof fn lemma_yaml_keeps_keys_unique(ls: Seq<Seq<char>>, i: int, st: YamlState)
    requires
        keys_unique(st.cfg.overrides),
    ensures
        keys_unique(yaml_from(ls, i, st).cfg.overrides),
    decreases ls.len() - i,
{
    if 0 <= i < ls.len() {
        lemma_step_keeps_keys_unique(st, ls[i]);
        lemma_yaml_keeps_keys_unique(ls, i + 1, yaml_step(st, ls[i]));
    }
}

/// A configuration value between a pair of single quotes, or a pair of
/// double quotes, is read without them.
pub proof fn lemma_quotes_are_stripped(v: Seq<char>)
    requires
        v.len() >= 2,
        (v[0] == '\'' && v[v.len() - 1] == '\'') || (v[0] == '"' && v[v.len() - 1] == '"'),
    ensures
        unquote(v) == v.subrange(1, v.len() - 1),
        unquote(v).len() == v.len() - 2,
{
}

/// A severity written in single or double quotes names the same severity
/// as written bare.
pub proof fn lemma_quoted_severity(v: Seq<char>)
    ensures
        severity_override_of(unquote(seq!['\''] + v + seq!['\''])) == severity_override_of(v),
        severity_override_of(unquote(seq!['"'] + v + seq!['"'])) == severity_override_of(v),
{
    let a = seq!['\''] + v + seq!['\''];
    let b = seq!['"'] + v + seq!['"'];
    assert(a.subrange(1, a.len() - 1) =~= v);
    assert(b.subrange(1, b.len() - 1) =~= v);
}

proof fn lemma_no_hash(s: Seq<char>, i: int, in_single: bool, in_double: bool, escaped: bool)
    requires
        0 <= i,
        forall|k: int| i <= k < s.len() ==> s[k] != '#',
    ensures
        comment_start_from(s, i, in_single, in_double, escaped) == s.len(),
    decreases s.len() - i,
{
    if i < s.len() {
        let c = s[i];
        if escaped {
            lemma_no_hash(s, i + 1, in_single, in_double, false);
        } else if c == '\\' && (in_single || in_double) {
            lemma_no_hash(s, i + 1, in_single, in_double, true);
        } else if c == '\'' && !in_double {
            lemma_no_hash(s, i + 1, !in_single, in_double, false);
        } else if c == '"' && !in_single {
            lemma_no_hash(s, i + 1, in_single, !in_double, false);
        } else {
            lemma_no_hash(s, i + 1, in_single, in_double, false);
        }
    }
}

/// After `k` leading spaces, trimming the start leaves the rest when it
/// starts with a character that is no whitespace; the indent is `k`.
proof fn lemma_leading_spaces(s: Seq<char>, k: int)
    requires
        0 <= k < s.len(),
        forall|j: int| 0 <= j < k ==> s[j] == ' ',
        !is_ws(s[k]),
        s[k] != ' ' && s[k] != '\t',
    ensures
        trim_start(s) == s.subrange(k, s.len() as int),
        indent_width(s) == k,
    decreases k,
{
    if k == 0 {
        assert(s.subrange(0, s.len() as int) =~= s);
    } else {
        let r = s.drop_first();
        assert forall|j: int| 0 <= j < k - 1 implies r[j] == ' ' by {
            assert(r[j] == s[j + 1]);
        }
        lemma_leading_spaces(r, k - 1);
        assert(r.subrange(k - 1, r.len() as int) =~= s.subrange(k, s.len() as int));
        assert(is_ws(s[0]));
    }
}

/// A config text whose only exclusion is written in single quotes is read
/// with the quotes removed: `- 'tests/**'` under `lint.exclude` excludes
/// `tests/**`.
pub proof fn lemma_quoted_exclusion_read(x: Seq<char>)
    requires
        x.len() > 0,
        forall|i: int| 0 <= i < x.len() ==> x[i] != '#' && x[i] != '\n',
    ensures
        config_of("lint:\n  exclude:\n    - '"@ + x + "'\n"@).exclude_patterns == seq![x],
{
    reveal_strlit("lint:\n  exclude:\n    - '");
    reveal_strlit("'\n");
    reveal_strlit("lint");
    let pre = "lint:\n  exclude:\n    - '"@;
    let t = pre + x + "'\n"@;
    let m = x.len() as int;
    let n = t.len() as int;
    assert(n == m + 26);
    assert forall|j: int| 0 <= j < m implies t[24 + j] == x[j] by {}
    assert(t[24 + m] == '\'' && t[25 + m] == '\n');
    // The three lines.
    assert forall|k: int| 0 <= k < 5 implies t[k] != '\n' by {}
    assert forall|k: int| 6 <= k < 16 implies t[k] != '\n' by {}
    assert forall|k: int| 17 <= k < n - 1 implies t[k] != '\n' by {
        if 24 <= k < 24 + m {
            assert(t[k] == x[k - 24]);
        }
    }
    lemma_lines_from_skip(t, 0, 0, 5);
    lemma_lines_from_skip(t, 6, 6, 16);
    lemma_lines_from_skip(t, 17, 17, n - 1);
    assert(lines_from(t, n, n) =~= Seq::<Seq<char>>::empty());
    let l1 = t.subrange(0, 5);
    let l2 = t.subrange(6, 16);
    let l3 = t.subrange(17, n - 1);
    assert(l1 =~= seq!['l', 'i', 'n', 't', ':']);
    assert(l2 =~= seq![' ', ' ', 'e', 'x', 'c', 'l', 'u', 'd', 'e', ':']);
    assert(l3 =~= seq![' ', ' ', ' ', ' ', '-', ' ', '\''] + x + seq!['\'']);
    assert(strip_cr(l1) == l1);
    assert(strip_cr(l2) == l2);
    assert(strip_cr(l3) == l3);
    let ls = lines(t);
    assert(ls =~= seq![l1, l2, l3]);
    let init = YamlState { cfg: default_config(), section: Seq::empty(), list_key: Seq::empty() };
    // `lint:` opens the lint section.
    lemma_no_hash(l1, 0, false, false, false);
    assert(without_comment(l1) =~= l1);
    lemma_leading_spaces(l1, 0);
    assert(trim_end(l1) == l1);
    assert(l1.subrange(4, 5) =~= seq![':']);
    let name = l1.drop_last();
    lemma_leading_spaces(name, 0);
    assert(trim_end(name) == name);
    assert(name =~= "lint"@);
    let st1 = yaml_step(init, l1);
    assert(st1 == YamlState { section: "lint"@, list_key: Seq::empty(), ..init });
    // `  exclude:` starts a fresh exclusion list.
    lemma_no_hash(l2, 0, false, false, false);
    assert(without_comment(l2) =~= l2);
    lemma_leading_spaces(l2, 2);
    let line2 = l2.subrange(2, 10);
    assert(trim_end(line2) == line2);
    assert(trim(l2) == line2);
    assert(line2.subrange(7, 8) =~= seq![':']);
    let key0 = line2.drop_last();
    assert(trim_end_char(line2, ':') == trim_end_char(key0, ':'));
    assert(trim_end_char(key0, ':') == key0);
    lemma_leading_spaces(key0, 0);
    assert(trim_end(key0) == key0);
    assert(key0 =~= exclude_key());
    assert(key0 != include_key()) by {
        assert(key0[0] != include_key()[0]);
    }
    let st2 = yaml_step(st1, l2);
    assert(st2.section == "lint"@);
    assert(st2.list_key == exclude_key());
    assert(st2.cfg.exclude_patterns == Seq::<Seq<char>>::empty());
    assert(st2.cfg.include_patterns == default_config().include_patterns);
    // `    - 'x'` adds `x`.
    assert forall|k: int| 0 <= k < l3.len() implies l3[k] != '#' by {
        if 7 <= k < 7 + m {
            assert(l3[k] == x[k - 7]);
        }
    }
    lemma_no_hash(l3, 0, false, false, false);
    assert(without_comment(l3) =~= l3);
    lemma_leading_spaces(l3, 4);
    let line3 = l3.subrange(4, l3.len() as int);
    assert(trim_end(line3) == line3);
    assert(trim(l3) == line3);
    assert(line3.subrange(0, 1) =~= seq!['-']);
    let rest = line3.drop_first();
    assert(trim_start_char(line3, '-') == trim_start_char(rest, '-'));
    assert(trim_start_char(rest, '-') == rest);
    lemma_leading_spaces(rest, 1);
    let quoted = rest.subrange(1, rest.len() as int);
    assert(trim_end(quoted) == quoted);
    assert(trim(rest) == quoted);
    assert(quoted =~= seq!['\''] + x + seq!['\'']);
    assert(quoted.subrange(1, quoted.len() - 1) =~= x);
    assert(unquote(quoted) == x);
    let st3 = yaml_step(st2, l3);
    assert(st3.cfg.exclude_patterns =~= seq![x]);
    assert(st3.cfg.include_patterns == default_config().include_patterns);
    assert(yaml_from(ls, 3, st3) == st3);
    assert(yaml_from(ls, 2, st2) == st3);
    assert(yaml_from(ls, 1, st1) == st3);
    assert(yaml_from(ls, 0, init) == st3);
}

} // verus!

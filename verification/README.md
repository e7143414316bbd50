# owui-lint

A linter for Open WebUI extensions — Python files that define a `Tools`,
`Pipe`, `Filter`, `Action` or `Pipeline` class — with its logic verified by
Verus.

## Layout

- `src/` — the verified library.
  - `text`, `util`: character-sequence helpers and their specifications.
  - `analysis`: the line-based analyzer of Python modules (syntax check,
    docstrings, imports, classes, methods, `Valves` fields).
  - `rules`: the rule catalog with default severities and help texts.
  - `config`: the YAML subset read from `config.yml` / `owui-lint.yml`.
  - `glob`: include/exclude patterns.
  - `linter`: the rules for each extension type, severity overrides and the
    order of reports.
  - `output`: text, GitHub and rule-listing formats, rule counts.
  - `cli`: exit codes and unknown-override warnings.
  - `server`: positions in UTF-16, diagnostics, hovers, completions, quick
    fixes, the open-document state and the handling of document events.
  - `update`: deciding whether a newer release exists.
- `app/` — the executable around the library: argument parsing, file
  discovery and reading, JSON and SARIF serialisation, the language-server
  transport, and the self-update download.
- `tests/` — tests of the library through its public interface.

Each public function states its result in its `ensures`, except the file
path that a `file:` URI names, which depends on the platform
(`uri_to_file_path`, and through it `uri_to_path`); properties that
relate several functions (report order, severity overrides, rule IDs,
glob matching, UTF-16 offsets) are stated and proved as `pub proof fn`
lemmas next to the code they are about.

# open-audit

`oaudit` audits codebases (and pieces of untrusted text) against composable
spec documents: markdown files with a YAML front-matter header that name an
auditor, its mode (`trusted` / `untrusted`), its kind, and the files it
looks at.

The decisions of the tool are a library verified with Verus (`src/`); the
program around it (`app/`) parses the command line, reads and walks files,
runs child processes and prints.

## Layout

- `src/spec.rs` — the spec document: front matter decoded into `SpecMeta`,
  with every way a header can be wrong reported.
- `src/front_matter.rs` — the split of a document by `gray_matter`, the
  parsed YAML as a mathematical value (`YamlModel`, maps unordered) and as
  plain data (`FrontValue`), and the proof that one stands for the other.
- `src/config.rs` — `.oaudit/config.yml`, decoded over the same model.
- `src/output.rs` — the human-readable report (JSON is the report's serde
  form, written by the program).
- `src/resolve.rs` — `--against` values to specs: ad-hoc files, repo-local
  overrides under `.oaudit/auditors/`, built-ins; the raw lookup for
  `explain`; the repo-local listing.
- `src/evidence.rs`, `src/globs.rs` — scope patterns (`glob`) and the
  gathering of in-scope, small, text files from a walk of the subject.
- `src/subject/` — repository, file and text subjects.
- `src/cli.rs`, `src/update.rs`, `src/render.rs`, `src/claude_session.rs` —
  what each command does, what `list` and `explain` print, which installer
  `update` runs, what the browser bridge's events mean.
- `src/strings.rs` — verified string helpers (trimming, splitting, search,
  ordering, decimal rendering, sorting).
- `tests/` — behaviour on concrete inputs; `app/` — the `oaudit` binary.

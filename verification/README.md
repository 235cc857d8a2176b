# conflic

A library that finds semantic contradictions across configuration files
(runtime versions, ports, strict-mode flags) and works with the findings:
baselines, history, drift from an organizational baseline, federated
reports, fix proposals and the logic of a language server. The functions
under `src/` are verified with Verus against their `requires`/`ensures`
contracts, except the small trusted wrappers around outside calls
described below, whose bodies Verus does not read.

## Layout

- `src/model/` — concepts, authorities, typed values (versions, ports),
  assertions and findings, with the counting and severity queries over a
  scan result.
- `src/extract/` — extractors: which files they read, and the assertions
  they emit from plain text, `.env` entries, Dockerfile instructions,
  tool-version lines, Terraform files, and parsed JSON, YAML and TOML
  documents held as a document tree (`kubernetes.rs`): Kubernetes
  manifests, Helm values (`helm.rs`), CI workflows (`ci.rs`), `tsconfig`,
  ESLint, `package.json`, `global.json`, `pyproject.toml` and compose
  ports (`documents.rs`), and custom sources (`structured.rs`); image
  references, runtime names. `custom.rs` also checks a custom extractor
  source before use (its format, file globs and value pattern), reporting
  a bad one as a `CONFIG001` error diagnostic.
- `src/graph.rs` — cross-concept rules: a condition on one concept and a
  requirement on another, violations becoming findings.
- `src/fix/` — planning fixes (`plan.rs`: the winner of each contradicted
  concept and a proposal or an unfixable item for every other value), the
  edit a target needs (`operation.rs`), rendering a fix plan, the values a
  proposal writes, and patching file content (whole values, single lines,
  byte ranges).
- `src/baseline.rs`, `src/history.rs`, `src/drift.rs`,
  `src/federation.rs`, `src/impact.rs`, `src/impact_analysis.rs`,
  `src/enrich.rs` — the reports and the data they are computed from.
- `src/outcome.rs` — the decisions of a run after a scan: concept
  filters, whether to print, the exit code.
- `src/lsp/` — scan scheduling, open documents and incremental edits,
  positions, diagnostics grouped by file, code actions.
- `src/git.rs`, `src/discover.rs`, `src/pathing.rs`, `src/config.rs`,
  `src/cli.rs` — the decisions around `git`, file matching, path text and
  configuration.
- `src/text.rs`, `src/style.rs` — character-level primitives and terminal
  styling.
- `app/` — the command-line program: argument parsing, `--init`,
  `--list-concepts`, the check of a `--diff` ref, and the conversion of
  parsed JSON, YAML and TOML values into the library's document trees.
  The stages that walk the tree, parse files and render a scan are not
  part of this code base, so the program does not scan.
- `tests/` — tests of the library on concrete values.

Calls into `regex`, `semver`, `node-semver`, `globset`, `owo-colors` and
`std` functions that Verus has no specification for go through small
trusted wrappers whose contracts are stated in their doc comments; where a
result takes more than a few lines to state (a regular-expression match,
a parsed version), the contract gives it a name and the verified code is
exact over that name. The project's own regular expressions are constants
in verified code (`src/pattern.rs` holds the one wrapper that runs a
pattern).

# ravel_lite

A phase-loop orchestrator for LLM-driven planning: a plan directory moves
through work, analyse-work, reflect, dream and triage phases, with git commits
between them, a catalog of projects, and a graph of relationships between
components.

Layout:

- `src/` — the library, verified with Verus. Every public function states in
  its `ensures` what it returns or changes, over spec functions on `Seq`,
  `Map` and views. Laws that span several functions (idempotence of catalog
  and edge operations, what a merge of YAML documents keeps, what a lookup
  finds after an add, how script phases close the cycle) are public proof
  functions beside the code they speak of.
- `src/regex_support.rs`, `src/json.rs`, `src/yaml.rs`, `src/paths.rs`,
  `src/clock.rs`, `src/fs_probe.rs`, `src/config.rs`, `src/text.rs` — the few
  calls into `regex`, `serde_json`, `serde_yaml`, `dirs` and std that the
  logic needs, each behind a small trusted wrapper whose contract says what
  the outside function's documentation promises, or names its result.
- `app/` — the command-line binary: argument parsing, files, git and agent
  processes, terminal output, and the serde copies of the library's types
  (reading a merged YAML value into a typed config).
- `tests/` — tests of the library through its public interface.

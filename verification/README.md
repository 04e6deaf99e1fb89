# plasma

A deterministic, typed policy engine and license tooling, written in Verus.

The library (`src/`) holds the logic and its proofs:

- `family`, `registry`, `fallback`, `catalog`, `lexer`, `spdx`, `compat` —
  the license model, SPDX identifiers and expressions, and compatibility rules;
- `header`, `content`, `zone`, `audit`, `audit_report` — SPDX header
  extraction, LICENSE text recognition, license zones, per-file audits and
  the issues and rules of an audit report;
- `ast`, `finding`, `facts`, `eval`, `action`, `apply`, `diff`, `diff_laws`,
  `schema`, `report` — the policy engine: fact snapshots, evaluation, remediation plans,
  snapshot diffs, schema validation and report content;
- `a2ml`, `union` — the A2ML contract format and union policy validation;
- `cli`, `migrate` — the decisions of the command-line tool;
- `text`, `order`, `debug_text` — character-level utilities, string ordering,
  and the `Debug` rendering of licenses and expressions.

Every public function states its result in its `ensures` clause over spec
functions; properties that relate several functions are public proof
functions (`lemma_*`).

`app/` is the command-line program: argument parsing, filesystem walks,
reading and writing files, and JSON/TOML (de)serialisation through copies of
the library's types. `tests/` exercises the library from outside.

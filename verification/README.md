# rokf

rokf checks Open Knowledge Format (OKF) knowledge bundles: markdown documents with
YAML frontmatter, organised as Concept Documents, Index Files and Log Files.

The library under `src/` is written in Verus, and every function in it carries a
contract that Verus proves:

- `text`: character-level operations (trimming, searching, line splitting) and their specs.
- `yaml`: the calls into `serde_yaml`, each behind one trusted wrapper, with named results.
- `document`: where Frontmatter opens and closes, metadata values, document lines.
- `verification`: Rules, Findings, Verification Reports, and the Verification of
  Concept Documents, Index Files and Log Files, with the text and JSON reports; its
  `links` module holds the Broken Link Rule.
- `traversal`: classification of documents, exclusions, and Bundle Verification
  (Document Verification of each document, then the Broken Links of Concept Documents).
- `check`: configuration, rule sets, suppressions and the Failure Threshold.
- `cli`: command values, templates and the exit status of a check.
- `laws`: proof functions that state properties spanning several functions.

`app/` holds the command-line program: argument parsing with `clap`, file-system
traversal, reading and writing files, and printing. It hands plain values to the
library and prints what comes back.

## What rokf does not do (yet)

- `rokf check` verifies a Concept Document, stdin, or a Knowledge Bundle, with text or
  JSON output (`--output json`). It does not apply Fixes: there is no `--fix`.
- There is no `rokf format` (Formatting and Format Check) and no `rokf index` (Index
  Maintenance).
- The Rules OKF102 (sorted Tags) and OKF500 (Index Maintenance) have a Rule Code and a
  Severity, but no check produces their Findings.

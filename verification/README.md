# specmate

A verified document model for document-driven development: PRDs, Design Docs
and their patches, Exec Plans and Task Specs live in status directories with
YAML frontmatter, and `specmate` keeps them consistent.

- `src/` is the library, proved with Verus.
  - `doc/` — document ids, frontmatter, path classification, the repository
    index, lifecycle rules, transition gates, repository validation and id
    allocation.
  - `check/` — the named checks (`names`, `frontmatter`, `status`, `refs`,
    `conflicts`), boundary-pattern overlap, and the `boundaries` check over the
    paths that version control reports as changed. A task is named by its
    canonical id (`exec-<slug>/task-<nn>`) or by a legacy id `task-<nnnn>`,
    which names the active legacy task file that declares it, else the one
    Task Spec with that number.
  - `cmd/` — what each subcommand decides and prints: `check`, `init`,
    `move`, `status`.
  - `text.rs` — character-sequence utilities specified over `Seq<char>`.
- `app/` is the program around it: command-line parsing, walking the
  repository, decoding YAML, asking git for changed paths, and writing files.
- `tests/` runs the library on in-memory repositories.

The library states its rules as laws, among them: documents of an index come
in strictly increasing id order; a rewritten document reads back with its new
status; two boundary patterns are reported as overlapping exactly when some
path matches both; coloring the status view only adds color sequences `ESC [ <digits> m`; a
canonical id reads back as itself.

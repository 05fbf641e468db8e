# kotlin_lsp

The core of a language server for Kotlin, verified with Verus: navigation between the `expect` and
`actual` declarations of multiplatform projects, warnings about platforms that lack an `actual`
declaration, and the handling of commands, documents and edits.

- `src/features`: marked declarations, their counterparts, code lenses, warnings.
- `src/backend`: starting the server, commands, events, progress, git branches, panics.
- `src/workspace`: workspace roots, what is published of a document, edits and their tasks.
- `src/syntax.rs`, `src/indexer.rs`: parsed documents and the index.
- `src/json.rs`, `src/protocol.rs`, `src/paths.rs`, `src/urls.rs`, `src/text.rs`,
  `src/string_map.rs`, `src/sequences.rs`: the values that the rest is built of.
- `laws.rs` in each directory, and proof functions beside the definitions that they speak of: what
  holds of several functions together.
- `tests`: the library on concrete values.
- `app`: the connection to the editor, the file system and the asynchronous tasks, around the
  library and unverified.

Parsing is done by `tree-sitter` with the Kotlin grammar, and addresses are parsed by the `url`
crate. What the proofs take for granted of them is stated at the functions that call them, in
`src/syntax.rs` and `src/urls.rs`. The tree of a text beyond ASCII depends on the machine, so what
follows from it is stated for every tree that can come of parsing.

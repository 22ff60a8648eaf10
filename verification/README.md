# xeno_editor

The editing core of the xeno editor as a verified Verus library: buffers
and documents, selections and their operations, undo and redo, search and
the search prompt, splits and focus, file loading, the invocation engine and
its policies, the decisions of the document-sync protocols, and the plans
the frontend follows for syntax work and LSP change sync.

Layout:

- `src/` — the library; every executable function carries a contract that
  Verus proves. The regex crate is called through a few trusted wrappers in
  `src/search.rs`, and `char` classes through `src/chars.rs`.
- `tests/` — tests of the library on concrete values.
- `app/` — the unverified edge: file and network I/O, background loads and
  the turning of library outcomes into user-facing messages.

Verify with Verus on `src/lib.rs`; the tests run with `cargo test`.

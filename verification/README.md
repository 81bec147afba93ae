# giblang

The front end of the gib language, written in Verus. The functions of `src/` carry contracts
over mathematical models of their data, and Verus proves each body against its contract. The
exceptions are the few wrappers marked `#[verifier::external_body]` that call `pretty` or the
standard library (their contracts are trusted, not proved) and `go::doc::render`, which lays a
document out through `pretty` and states nothing of the text it gives.

Checking an expression is described by the relation `checks_to` (and `expects_to` where a type
is expected) in `src/ir/expr/rel.rs`: each part of the tree is related to the check of its
written counterpart, through the states that each step leaves.

Layout:

- `src/db` – source files, the tree of files of a project, declarations and module paths.
- `src/check` – the state of type checking: scopes, type variables and their merging,
  instantiation of generics, diagnostics and their messages.
- `src/ir` – checking the syntax tree into a typed tree; semantic tokens and lookup by offset.
- `src/build` – compiling the typed tree into instructions of a stack machine, with an exact
  model of the code each construct gives (`build/model.rs`).
- `src/go` – Go syntax and its documents, laid out by the `pretty` crate.
- `src/fs` – the tree of parsed files and lookups of paths through it.
- `src/dap.rs` – breakpoints and positions in compiled code.
- `app/` – the command line, reading from disk and printing reports.

Laws of the library are stated as public proof functions named `law_*`.

# arcis

A small TypeScript-like language (`.tsr`) and its tools, as a verified
library: the lexer and parser of the language, the checks run on a
program (unused and duplicate bindings, type inference, type mismatches,
null safety, shadowing, narrowing), the editor services of its language
server (completion, hover, go-to-definition, diagnostics, document
symbols), and the translation of a program's modules to Rust source.

Layout:

- `src/syntax/`: tokens, lexer, syntax tree (with its values in `view.rs`)
  and parser.
- `src/validation/`: the checks and rewrites run after parsing.
- `src/lsp/`: the editor services, from document text to items.
- `src/compiler/`: the compiler's own tree (and the lowering of a parsed
  program into it), its semantic checks, the module loader's decisions
  (order, cycles, import checks), the translation to Rust, and the
  project layout decisions.
- `app/`: the command line (`build`, `run`, `check`, `init`, `lsp`), file
  access, calls of `rustc` / `cargo`, and the language-server plumbing.

Each function's contract states what it returns over the values of its
inputs; the proofs are checked by Verus.

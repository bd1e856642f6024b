# nirapod-audit

Deterministic auditing of C and C++ firmware sources: SPDX headers, Doxygen
structure, NASA/JPL safety rules, cryptographic misuse, memory safety and
documentation style.

The library under `src/` is written in Verus. Each check states in its
contract which findings it reports on a file, over spec functions of the
file's lines and syntax tree, and Verus proves the code against it.

- `parser`, `syntax`: tree-sitter parsing, flattened into a plain syntax tree.
- `context`: per-file context (role, platform, lines) and project context.
- `lex_pass`, `ast_pass`, `nasa_pass`, `crypto_pass`, `memory_pass`,
  `style_pass`: the six analysis passes.
- `audit`: running the passes over a file, ordering and counting findings.
- `config`: merging `nirapod-audit.toml` over the defaults; where it is
  searched for.
- `discover`: choosing the files of a target (supported languages, ignore
  globs, path order).
- `report`, `summary`, `progress`: the text the command line prints.
- `rules`: the rule catalog.

`app/` is the command-line program: argument parsing, file reads, the
directory walk, TOML decoding and terminal output.

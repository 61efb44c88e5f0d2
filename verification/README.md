# ide_cmm

The logic of an IDE for the C-- teaching language, verified with Verus, and
the GTK application around it.

- `src/compiler/lexer` — the scanner. `model.rs` states what each scanning
  step does over the characters of the text; `analyze` (and the first
  scanner, `analizar`) are proved to return exactly the tokens and errors of
  that model; `positions.rs` proves that every token and error carries the
  line and column where its text starts, in the order of the text.
- `src/compiler/parser` — the recursive-descent parser. `grammar.rs` states
  the tree and the errors for any token sequence; every parsing method is
  proved against it. `utils.rs` writes tokens as text and reads them back,
  with the proof that what is written reads back unchanged.
- `src/models` — tokens, errors and syntax-tree nodes, each with a view.
- `src/ui` — what the panels show: token and tree colours, tree prefixes,
  search, and the position links that lead from a panel line back to the
  source (with the proof that a link leads back to its position).
- `src/text.rs` — character classes, trimming, searching and decimal numbers.
- `app/` — the GTK window, menus, file dialogs and the external compiler;
  it calls the library for everything it decides.

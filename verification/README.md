# phpantom

The verified core of a PHP language server, written in Verus.

- `src/completion/` builds member completion entries for a class:
  access-kind and visibility filtering, method labels and snippets, and a
  stable case-insensitive ordering with zero-padded sort keys.
  `properties.rs` states what every returned list satisfies.
- `src/hover/` finds the type string of a variable at the cursor by
  walking a model of the PHP syntax tree (parameters, `catch` variables,
  `foreach` bindings, closures), and locates the docblock before a
  declaration. `properties.rs` proves that a reported type is one the tree
  binds to that name, and that in a tree whose spans nest as a parser's
  do, a statement that does not hold the cursor contributes no type.
- `src/definition/` turns the outcome of a definition search into a jump
  target.
- `src/text.rs` holds the string facts the rest relies on (lexicographic
  order, Unicode whitespace trimming, byte-range slicing of UTF-8 text).

`app/` connects the library to `tower-lsp` types and builds the syntax
model from the `mago-syntax` parser.

# lolcompiler

A compiler from a small LOLCODE-flavoured markup language to HTML, written in
Verus.

- `src/lexer.rs` splits a source text into words at Unicode whitespace.
- `src/grammar.rs` gives the meaning of each grammar rule as a function on the
  parser's state (current token, pending tokens, HTML, scopes).
- `src/compiler.rs` is the recursive-descent parser; every rule is proved to
  compute exactly what `grammar.rs` says.
- `src/scope.rs` holds one static scope; `src/paths.rs` the input and output
  file names; `src/error.rs` the ways a program is rejected.
- `src/laws.rs` states and proves properties of the whole: the output is an
  HTML document that only grows, a paragraph closes the scope it opens, a use
  of a variable reads its latest definition, and the lexer keeps every
  non-whitespace character.
- `app/main.rs` is the command-line program: it reads `file.lol`, writes
  `file.html` and opens it in a browser.

# protorun

The front end of the Protorun language — syntax tree, errors, lexer, parser, symbol
tables and a printer for syntax trees — written in Verus and verified against its
specifications.

- `src/ast.rs`: the syntax tree and the models of types.
- `src/error.rs`: errors and their text.
- `src/lexer.rs`: the lexer; `lex_step` and `lex_all` say what it reads.
- `src/symbol.rs`: symbol tables with nested scopes and their laws.
- `src/parser/`: the parser. Each parsing function is described by a spec function of
  the same name ending in `_at`, over the input bytes and a position; the parser's
  results are stated through the kinds of the nodes it builds (`ExprKind`, `DeclKind`,
  `PatternKind`, `TypeModel`, ...), each with the span recorded for it, and its errors
  through `is_syntax_error`.
- `src/parser/reread.rs`: printed types read back as the same types.
- `src/printer.rs`: text renderings of syntax trees.
- `app/main.rs`: the command line program (read a file or a prompt, print what was
  read).

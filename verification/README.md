# badger_cst

A lossless concrete syntax tree for Badger source files, with the contracts of
its lexer and parser proved by Verus, and the `badger` command-line front end.

## Layout

- `src/kinds.rs`: the token and node kinds, their raw tags and the trivia kinds.
- `src/text.rs`: characters of a source text and their UTF-8 byte positions.
- `src/lexer.rs`: `tokenize`, specified by `lex`, a function on the source's
  characters; every character lands in exactly one token.
- `src/tree.rs`: a tree as the sequence of events (open node, token, close node)
  that builds it, and the calls into rowan's green-tree builder.
- `src/grammar.rs`: the grammar as spec functions: for each parsing routine, the
  outcome it has on a token sequence at a position.
- `src/parser.rs`: the recursive-descent parser, each routine proved to have the
  outcome its grammar function gives; `parse` ties it to the source text.
- `src/lib.rs`: `ParseError` and `Parse` (its tree and `serialize`).
- `src/commands/`: what each subcommand of `badger` reports.
- `app/`: the `badger` binary (argument parsing with clap, exit codes) and the
  rowan `Language` impl that gives red-tree access to a parse.
- `tests/`: tests on concrete sources and arguments.

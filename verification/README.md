# Dang

A small interpreted language: a lexer, a Pratt parser, a tree-walking evaluator,
and a bytecode compiler with a stack machine. The library is written in Verus; each
public function states in its contract what it computes.

## Layout

- `src/text.rs` — decimal and quoted text of values, joining, string helpers.
- `src/intern/` — the interner of names (`Symbol`), and `PrettyDisplay` / `WithInterner`
  for printing values whose text needs the names.
- `src/lex/` — tokens and the lexer; `Lexer::next_token` is specified by
  `spec_next_token`.
- `src/ast/` — literals, expressions, statements, their printed forms, ordering and
  equality, and the parser; `Parser::build_ast` is specified by `spec_build_ast`.
- `src/eval/` — runtime values, environments (frames addressed by index), the
  evaluation semantics (`semantics.rs`), the evaluator proved against it
  (`evaluate.rs`), and laws of evaluation (`laws.rs`).
- `src/compiler/` — opcodes and their encoding, the symbol table, the compiler
  (specified as a transformer of the compiler state), the virtual machine
  (specified step by step), and the proof that compiled code computes what
  evaluation computes (`correctness.rs`).
- `app/main.rs` — the command line: runs a file given with `--file-name`, or reads
  lines interactively, and prints what the program printed and its value.

Evaluation and the virtual machine take a step bound far beyond any run that ends;
arithmetic that does not fit in an `i64`, division by zero, and malformed bytecode
give errors instead of stopping the program. Popping the machine's empty stack gives
`None`, the value its `stack_top` shows for an empty stack.

# MemeLang

A small scripting language, as a verified library with a thin program
around it.

## Layout

- `src/token.rs` — tokens as the parser reads them.
- `src/ast.rs` — the syntax tree, its mathematical model, copies and
  structural equality.
- `src/grammar.rs` — the grammar, stated as spec functions over a token
  sequence, with the proof that parsing reads nothing past the end of
  input; `src/parser.rs` — the recursive-descent parser, proved to follow
  the grammar, error for error.
- `src/number.rs` — numbers as IEEE-754 binary64 bit patterns, with the
  comparisons the language needs decided on the patterns.
- `src/value.rs`, `src/table.rs` — run-time values and the variable table.
- `src/interpreter.rs` — the interpreter as a step machine: each step is
  proved to follow `spec_step`. Floating-point arithmetic, number-to-index
  conversion and printing are requested from the driver through the
  actions a step returns. A run-time error abandons every pending call,
  restoring the environment of the code outside them. `src/scoping.rs`
  proves that evaluating an expression leaves the caller's variables as
  they were, both when its value is ready and when the run stops with an
  error; in the latter case the variables are those of the code outside
  every pending call.
- `src/evaluation.rs` — laws of whole evaluations: given how the parts of
  an expression or statement evaluate, what it evaluates to (operators,
  indexing, `let`, assignment, `print`, functions, `if`, `while`, `for`,
  blocks).
- `src/execute.rs` — the line-by-line command language (`cow_sayln!`,
  `cow_say!`, `cook`, `sus`, `:)`), decided by the library and printed by
  the caller.
- `app/` — the program: it reads a file and runs it line by line, and it
  holds the driver of the interpreter machine (arithmetic, printing,
  messages).
- `tests/` — tests of the parser, interpreter, command language, numbers
  and table.

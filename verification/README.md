# pebbles

The Pebble compiler, verified with Verus, and the command line program around
it.

## Library (`src/`)

- `lexer.rs` — the tokeniser. Its token list is the one `spec_tokens`
  describes for the text; it always ends with a single `EOF`.
- `grammar.rs` — the grammar as the parser reads it: for a token list and a
  position, what each parsing routine builds and how many tokens it consumes,
  or the error it reports.
- `parser.rs` — the recursive-descent parser, each routine proved against the
  routine of the same name in `grammar.rs`.
- `typing.rs` — the typing rules: the type of every expression, the checker
  state after every statement, function and item, and the error reported
  otherwise; with laws about what a successful check leaves behind.
- `typeck.rs` — the type checker, proved to follow `typing.rs`.
- `codegen.rs` — what code generation decides before emitting instructions:
  signature and struct tables, the types it gives expressions and variables,
  the machine type of each Pebble type, and how each binary operation and cast
  is carried out; and the law that, for expressions without calls or blocks,
  the type code generation gives is the type checker's.
- `emit.rs` — the code generator (`codegen::Codegen`): lowers a program to an
  LLVM module. It decides every type, operation, runtime call and error. Each
  value it makes carries a ghost term saying what the value computes over the
  values it was made from (operands in order, fields, loop indexes), and a
  ghost log records the operations it emits and, once their code is complete,
  each loop (start, test, step, element) and each match (subject, the arm
  conditions in order, the variables each arm binds). The contracts state the
  term of every literal, variable, operator, cast and `str` conversion, the
  equality generated for every type (`eq_term`), the condition and bindings of
  every pattern (`pat_term`, `pat_binds`), the record of every `for` loop and
  `match`, and the value a function returns from its last expression;
  successful generation leaves the variable scopes and loop targets as it
  found them. A ghost count of failed LLVM calls lets equality, binary
  operations and patterns say when they fail: only where an LLVM call failed
  or where the comparison or pattern is refused on its types (`eq_refused`,
  `pat_refused`).
- `llvm.rs` — the inkwell calls the code generator makes, one wrapper each;
  none claims anything of the LLVM values it builds.
- `diag.rs` — the text of tokens and types in error messages, as their
  derived `Debug` implementations write it, spelled out and built verified
  (a float literal as `Debug` writes the number it denotes, for the usual
  range and precision).
- `ast.rs` — the syntax tree and its models; `text.rs` — the
  standard-library text operations the rest relies on, with what they promise.

## Program (`app/`)

`app/main.rs` reads the source file, runs the library (tokeniser, parser,
type checker, code generator), writes the module out through `app/codegen.rs`
(textual IR and an object file), then links the result with the C runtime.

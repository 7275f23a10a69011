# boa_cat

A tree-walking ECMAScript engine whose evaluator is verified with Verus.
It evaluates a script's syntax tree to a value over a persistent heap of
objects, functions, variable cells and promises, within a step budget
(fuel): every evaluation either finishes within its budget or stops with
`FuelExhausted`.

Layout:

- `src/` — the verified library: the syntax tree (`ast`), values and the
  heap, environments, coercions and operators, statement and expression
  evaluation, calls, property access, literals, and promises.  Numbers are
  carried as their IEEE-754 binary64 encodings; the library computes what
  it can exactly on integers (sums, differences, products, even quotients
  and remainders, `++`/`--`, the 32-bit operators, lengths, integer text
  and its parsing), and the rest of the arithmetic, number text and the
  embedder's own native callables come from a `Host` the embedder
  supplies.
  The contracts state the evaluator as a big-step relation
  (`sem_eval`, `sem_statement`, `sem_block`, `sem_call_function`, ...):
  every evaluation function ensures that its result is one the relation
  admits; where the host computes, parses or writes a number, or runs one
  of the embedder's callables, the relation names the question it is
  asked and admits whatever it answers to that question.
- `app/` — a binary64 `Host` on `f64`, the error type with `Display`, and
  the `Io`-returning entry points.
- `tests/` — scripts end to end, and the library's laws on concrete values.

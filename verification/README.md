# aiscript_engine

An engine for AiScript, written in Verus: the library under `src/` is verified,
`app/` is the host around it.

## Layout

- `src/common`: UTF-16 strings, name paths (`Ns:id`), positions and errors.
- `src/lexer`: tokens and the token stream that the parser reads.
- `src/ast`: the syntax tree, and the size measures that bound recursion over it.
- `src/parser`: the recursive-descent parser (top level, statements, expressions, types),
  the grammar (`grammar.rs`) as relations between the tokens before a construct, the
  tokens after it and the tree read, and how far each construct reaches (`extent.rs`).
- `src/types`: the type model and the resolution of written types.
- `src/ir`: the register-machine code, the scopes of names, the translator from syntax
  trees to code, the model of the code that it writes (`compile.rs`), and the check of
  which programs the translator takes.
- `src/vm`: the register machine. Arrays, objects and functions live in a heap of cells
  addressed by index; cells are never freed while the machine runs. It runs the code step by step; where a step needs
  floating-point arithmetic, the index that a number stands for, or a native function,
  it stops and waits for its host, which resumes it with the result.
- `src/library`: the standard library and the program that the interpreter runs.
- `src/interpreter`: the values of the tree-walking interpreter (user functions and their
  parameters).
- `src/laws.rs`: properties that relate several functions, proved.
- `app/`: the interpreter loop with the host's work, number parsing, error display,
  and serde support for the string types.

## What is proved

Among others: each parsing function, when it succeeds, has read its construct by the
grammar of `src/parser/grammar.rs` and returns the tree that the grammar gives, and on a
token stream that cannot fail it succeeds exactly where `src/parser/extent.rs` says the
construct reaches, and otherwise fails with the syntax error, message and position, that
that file names; the translator writes exactly the code that the model in
`src/ir/compile.rs` describes, for each expression, statement, namespace and program, and
every program that it writes can be loaded by the machine; a step keeps the machine well formed and is determined by its state;
every step that continues lowers a measure of the work left, so a run ends; object
properties keep their insertion order; names defined in a scope are found there; a step
that fails changes no register, and one that continues writes only its target register;
the parser runs its plugins once each, in order, each on what the one before left, and
returns the first plugin error or what the last plugin left.
The texts of the errors, the text of the offending token in a syntax error among them,
are built by verified code.

# tropaion

Parts of the tool chain of a small statically typed language, written in Verus:
the lexer, the type model and several analyses, the code generation of
expressions, and the stack machine's operations and the running of one
instruction. Every function under `src/` carries a contract that Verus proves.
The parser proper, type resolution, the code generation of statements and the
loop that runs a whole program are not part of the library.

- `lexer`: characters to tokens.
- `parser`: reading the token stream (looking ahead, expecting a token, and
  skipping to a safe place after an error).
- `ast`: expressions, statements and types, each with a mathematical model.
- `analysis`: the type registry, symbol tables, operator table, name mangling,
  constant folding, method transformation and the bookkeeping of generic
  functions.
- `compiler`: the bytecode, the code generator's scopes, locals and jumps, the
  code generated for each kind of expression, and the collection of functions
  before generation.
- `interpreter`: the machine's stack, frames, heap with its allocator and
  collector, calls and returns, comparisons, conversions, integer arithmetic,
  the dispatch of one instruction, and profiling.
- `memory_blob`: a value together with everything it reaches, copied into one
  self-contained block.
- `completion`, `intrinsics`, `error`, `util`: suggestions for an editor, the
  built-in types and functions, error values and their messages, and the bit
  patterns of single-precision floats.

Laws that span several operations (a pop after a push, a load after a store,
folding twice, closing a scope, flattening a value) are public proof functions
beside the operations they speak of.

`tests/` exercises the library on concrete values. `app/` holds what Verus does
not check: the error types with their `Display` text, the float helpers, and the
HTML rendering of a profile.

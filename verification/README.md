# tlang

A compiler from a syntax tree to stack-machine code, and the stack machine that runs it,
both verified with Verus.

- `src/ast.rs`: the syntax tree the compiler takes.
- `src/compiler/`: `ast_flattener.rs` turns statements into instructions and class vtables;
  `semantics.rs` states, as spec functions, the code and the refusals each construct
  gives; `typing.rs` holds type compatibility and operator typing; `tables.rs` the
  compiler's symbol tables.
- `src/vm.rs`: the machine. `excecute` runs for a bounded number of steps and hands back
  values to print and floating-point operations, which the caller carries out.
- `app/`: the command line; it reads `.tb` files, prints, and computes with floats.

# funky

A WebAssembly interpreter whose core is verified with Verus.

- `src/parser`: the binary format, read into an AST; each function states the
  grammar of what it reads, where reading stops, and which error it meets.
- `src/validation`: the checks of a module, stated as one specification of
  what validation returns.
- `src/allocation.rs`, `src/instantiation.rs`: a module's functions, tables,
  memories, globals and exports become instances in the store; element and data
  segments are written.
- `src/engine`: the machine: the store, the stack, every instruction, blocks,
  branches and calls. Floating-point arithmetic is the embedder's, behind the
  `FloatUnit` trait; every run is given fuel. Each instruction's effect is
  stated (`plain_step`), and every run that ends well is proved to end as the
  semantics of blocks, loops, conditionals, branches, returns and calls says
  (`runs`, `call_runs`). Where the program counter never fails, code without
  blocks, branches taken or calls, that runs well at every step, is proved to
  run to its end (`straight_ends`), for a run, a function and an export.
- `src/cli.rs`, `src/spectest.rs`, `src/config.rs`, `src/statistic.rs`: reading
  arguments, and the parts of the specification-test runner that decide.
- `app/`: the command-line program, the float unit of the host and the
  debugger's program counter.

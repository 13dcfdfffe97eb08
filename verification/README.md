# wasm_rs

Instantiation of WebAssembly modules, verified with Verus.

- `src/structure/`: value types, limits, function types, instructions and
  the decoded module (imports, exports, functions, tables, memories,
  globals, element and data segments, start function).
- `src/exec/`: the store that holds every function, table, memory, global
  and module instance by address; global handles (`GlobalAddr`) that share
  an instance between the module that exports it and those that import it;
  `NameMap`, the name-keyed maps of import objects and exports; and
  `ModuleInst::new`, which links a module's imports, allocates its
  instances, checks and writes its segments and records its exports, then
  hands back a `PendingInst` naming the start function; whoever runs that
  function passes its outcome to `PendingInst::finish`.
  `exec/linking.rs` states what instantiation computes; `exec/instantiate.rs`
  holds its steps.
- `app/`: JSON snapshots of globals and memories (serde), with
  floating-point values as floats.

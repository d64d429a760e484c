# WebAssembly memories and tables, verified

A Verus library for the linear memories and tables of a WebAssembly runtime.

- `src/store.rs` — the `Store` that owns every memory, table, data segment and
  element segment, and its mathematical view `StoreView`.
- `src/memory.rs` — `MemoryType`, `Memory`, `MemoryEntity`: creation, growth,
  fill, copy and initialisation from data segments.
- `src/stack.rs` — the saved registers of an interpreter's call frames, which
  `Memory::grow_with_stack` repoints to a grown memory's new size.
- `src/table.rs` — `TableType`, `Table`, `TableEntity`, `TypedTableEntity`:
  creation, get, set, growth, fill, copy and initialisation from element segments.
- `src/reference.rs` — function and host references, and their unguarded form.
- `src/data.rs`, `src/elem.rs` — data and element segments.
- `src/range_ops.rs` — fill and copy on ranges of a vector, shared by both.
- `src/decode.rs` — decoding of memory, table and reference types, and of
  unsigned LEB128 integers.
- `app/lib.rs` — the error types with `Display` and `std::error::Error`, and
  `new_store`, which gives each store of the process its own id.

Every function in `src/` carries a contract that Verus proves; the public
`law_*` proof functions state properties that span several operations.

# re_mcap

Bounded, allocation-aware preparation stages for remote MCAP inputs, written in Verus.
Verus verifies every function under `src/` against its `requires`/`ensures` contract, except
the small trusted wrappers described below.

## Layout

- `src/remote_summary/` — the binary Summary section: record framing and parsing (through the
  `mcap` crate), the census and exact materialization of definitions, physical message-index
  regions and the ambiguous zero-length message-index probe.
- `src/remote_ros2_reflection/` — admission of a remote ROS 2 initializer: the aggregate budget,
  the topic decoder-signature preflight, the bounded ROS 2 message-definition grammar
  (lexer, names, types, literals, members, specifications, dependency graph), the
  allocation-free census and dry run, and materialization into exact fixed arenas.
- `src/remote_typed_output.rs` — the typed-output tables and retained-metadata accounting.
- `src/remote_runtime_intern.rs` — the typed admission outcomes of runtime-identifier interning.
- `src/remote_seek.rs` — the vocabulary types of seek ownership (generations, batch identities,
  commit locks and the failure latch).
- `src/remote_time.rs` — canonicalization of raw MCAP log times into `re_log_types` time values.
- `src/mcap_opcodes.rs` — MCAP record opcodes.
- `tests/` — executable tests of the library.
- `app/` — the parts that stay outside verification: error types with `Display`, and
  conversions for callers.

## Trust

Calls into `mcap`, `re_log_types` and a few `std` functions go through small wrappers marked
`#[verifier::external_body]`, each with a doc comment that says what its contract assumes of the
outside code.

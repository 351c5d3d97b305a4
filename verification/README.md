# midenc

Verified core of the Miden compiler toolchain, written in Verus.

- `src/` is the library. Every function there has a contract that Verus proves: the felt
  representation of values and transaction-script arguments (with round-trip laws), DWARF
  variable decoding and the debug-information schedule of a function (a proved stable sort),
  the tracking of debug variables during translation, Wasm memory access preparation, the
  session package registry (install/load laws), SSA variable declarations, `cargo build`
  command lines and entrypoint selection, and the WIT worlds of SDK bindings.
- `tests/` exercises the library on concrete values.
- `app/` holds what Verus does not check: reading DWARF sections with `gimli`, running
  `cargo`, and probing the filesystem for dependency WIT files; it hands the library plain
  values.

Calls into other crates (`heck`) and into `std` formatting and string routines go through a
few small trusted wrappers whose contracts state what those functions document.

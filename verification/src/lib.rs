//! Verified core logic of the Miden compiler toolchain.
//!
//! - [`felt`], [`field_repr`], [`script_args`], [`rodata`]: field elements, the felt
//!   representation of values, transaction-script argument transport, read-only data packing.
//! - [`dwarf`], [`debug_info`], [`debug_tracking`], [`inline_call`]: decoding DWARF variable
//!   locations, building per-function debug information and location schedules, tracking which
//!   variables live where during translation, inline call chains.
//! - [`mem`], [`masm`], [`variables`]: Wasm memory access preparation, Miden Assembly block
//!   inspection, SSA variable declarations.
//! - [`cargo`], [`session`], [`registry`], [`wit_world`]: `cargo build` command lines, project
//!   manifest location and target selection, artifact naming and the default project, the session
//!   package registry, WIT worlds of SDK bindings.
//! - [`note`]: the rules for note scripts: the entrypoint method, its signature, and the names
//!   of its bindings.

pub mod felt;
pub mod field_repr;
pub mod script_args;
pub mod rodata;
pub mod debug_info;
pub mod dwarf;
pub mod wit_world;
pub mod inline_call;
pub mod cargo;
pub mod mem;
pub mod masm;
pub mod variables;
pub mod debug_tracking;
pub mod session;
pub mod registry;
pub mod note;

//! Core of a native hot-code-reload pipeline: a build orchestrator that
//! debounces and coalesces change triggers, a dependency resolver that walks a
//! binary's native import table into a content-addressed closure, a library
//! lifecycle manager, a hot-swap runtime with an idempotent adoption
//! operation, and the wire protocol connecting them.

pub mod build_plan;
pub mod debounce;
pub mod harness;
pub mod hashing;
pub mod imports;
pub mod lifecycle;
pub mod metadata;
pub mod orchestrator;
pub mod protocol;
pub mod reloadable;
pub mod resolver;
pub mod runtime;
pub mod settings;
pub mod target;
pub mod text;

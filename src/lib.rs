//! Function-call tracing for WebAssembly modules: a rewriter that wraps
//! every named exported function in a shim calling `instrument_enter` and
//! `instrument_exit` host hooks, and the host-side runtime that keeps the
//! call stack and produces trace records.
pub mod model;
pub mod shim;
pub mod rewrite;
pub mod runtime;
pub mod trace;
pub mod wasm;
pub mod signing;

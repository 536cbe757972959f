//! Verified core of the Kestrel compiler driver: module discovery, watch-mode
//! decisions, the in-process JIT fallback policy, the browser shim's result
//! header and the dev server's routing.

pub mod debounce;
pub mod devtool;
pub mod error;
pub mod jit;
pub mod modules;
pub mod output;
pub mod rebuild;
pub mod text;
pub mod waits;
pub mod watch;
pub mod web;

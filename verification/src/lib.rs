//! A host for sandboxed compute modules behind a request/response protocol.
//!
//! The host keeps a library of named key/value stores, a registry of opaque
//! integer handles onto host-side objects, a per-call context that enforces
//! "exactly one response per call", bounds-checked marshalling of bytes in and
//! out of a guest's linear memory, and an endpoint registry that routes each
//! request method to the one module that exports it.

pub mod abi;
pub mod bytes;
pub mod config;
pub mod context;
pub mod engine;
pub mod errors;
pub mod hashing;
pub mod memory;
pub mod registry;
pub mod storage;
pub mod strings;

//! Inline function hooking ("detouring") on x86-64, verified against a
//! byte-level model of code memory.
//!
//! The engine redirects calls to a target function toward a replacement
//! while preserving the original behavior through a generated trampoline.
//! Code memory is modeled as an addressed byte buffer ([`mem::CodeMemory`]);
//! every stage of the pipeline — instruction decoding, patch planning,
//! trampoline generation, patch installation and rollback, and the detour
//! lifecycle — is specified and proved over that model.

pub mod bytes;
pub mod decode;
pub mod emu;
pub mod error;
pub mod handle;
pub mod laws;
pub mod mem;
pub mod plan;
pub mod statik;
pub mod tramp;

//! The AArch64 backend.
//!
//! `encode` holds the instructions, `resolve` the second pass and `assemble`
//! the entry point.  `layout` says how the state of an assembly follows the
//! program, `flags` what the condition codes mean, and `laws` what holds of
//! every program.
pub mod regs;
pub mod encode;
pub mod resolve;
pub mod assemble;
pub mod layout;
pub mod flags;
pub mod laws;

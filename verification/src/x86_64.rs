//! The x86-64 backend.
//!
//! `fields`, `scalar`, `memory` and `vector` hold the forms of the
//! instructions, `encode` the instructions themselves, `resolve` the second
//! pass and `assemble` the entry points.  `layout` and `size` say how the
//! state of an assembly follows the program, `machine`, `sequences` and
//! `flags` what the code does, and `laws` what holds of every program.
pub mod regs;
pub mod fields;
pub mod scalar;
pub mod memory;
pub mod vector;
pub mod encode;
pub mod resolve;
pub mod assemble;
pub mod layout;
pub mod size;
pub mod machine;
pub mod sequences;
pub mod flags;
pub mod laws;

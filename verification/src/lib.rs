//! A retargetable just-in-time assembler.
//!
//! A program is a list of architecture-neutral virtual instructions
//! ([`Ins`]).  A backend turns the list into the machine code of one target
//! architecture, resolves every reference to a label, and hands back an
//! [`Executable`]: the final bytes together with the table of label offsets.
//!
//! ```text
//! Executable::from_ir(&[Ins::Add(R(0), R(7), Src::SR(6)), Ins::Ret])    // x86-64
//! Executable::from_ir_and_level(&program, CpuLevel::Simd128)            // x86-64
//! Executable::from_ir_aarch64(&program)                                 // AArch64
//! ```
//!
//! Both backends are there whatever the machine that the library runs on.
//! Placing the bytes in executable memory and calling them is left to the
//! user of the library, who has [`Executable::check_call`] to validate an
//! invocation first.
//!
//! Every function of the library is verified.  What an instruction
//! assembles to is given by a specification function: `encode` of each
//! backend gives the bytes of an instruction and `assemble` those of a
//! program, and the assembler is proved to return exactly that, with no
//! overflow and no access out of bounds on the way.  On top of that, each
//! backend has `laws` that hold of every program: that assembling is
//! deterministic, that registers stand at fixed bits, where immediates change
//! from their narrow to their wide form, that a reference to a label leads to
//! the label in either direction, and that a label never declared fails the
//! assembly.  For x86-64, `sequences` says what the instructions emitted for
//! integer arithmetic compute on a model of the registers and the stack, and
//! `flags` of each backend what the condition codes mean.
pub mod ir;
pub mod bytes;
pub mod hex;
pub mod error;
pub mod state;
pub mod data;
pub mod program;
pub mod executable;
pub mod cpu;
pub mod graph;
pub mod x86_64;
pub mod aarch64;

pub use crate::cpu::{cpu_level, CpuFeatures};
pub use crate::error::Error;
pub use crate::executable::{Arch, Executable, ExecutableView};
pub use crate::ir::{Cond, CpuLevel, Imm, Ins, Scale, Src, Type, Vsize, R, V};
pub use crate::state::{Fixup, State, StateView};

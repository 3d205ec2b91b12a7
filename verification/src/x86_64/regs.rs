//! The numbers of the general-purpose registers of x86-64 and their roles in
//! the System V calling convention.  `R(RAX)` is the register itself.
use vstd::prelude::*;

verus! {

pub const RAX: u8 = 0;

pub const RCX: u8 = 1;

pub const RDX: u8 = 2;

pub const RBX: u8 = 3;

pub const RSP: u8 = 4;

pub const RBP: u8 = 5;

pub const RSI: u8 = 6;

pub const RDI: u8 = 7;

pub const R8: u8 = 8;

pub const R9: u8 = 9;

pub const R10: u8 = 10;

pub const R11: u8 = 11;

pub const R12: u8 = 12;

pub const R13: u8 = 13;

pub const R14: u8 = 14;

pub const R15: u8 = 15;

/// The registers that carry the first integer arguments of a call.
pub const ARG: [u8; 6] = [RDI, RSI, RDX, RCX, R8, R9];

/// The registers that carry the integer results of a call.
pub const RES: [u8; 2] = [RAX, RDX];

/// The registers that a callee must preserve.
pub const SAVE: [u8; 6] = [RBX, RBP, R12, R13, R14, R15];

/// The registers that a callee may overwrite.
pub const SC: [u8; 7] = [RAX, RCX, RDX, R8, R9, R10, R11];

/// Every general-purpose register but the stack pointer.
pub const ALL: [u8; 15] = [
    RAX,
    RBX,
    RCX,
    RDX,
    RBP,
    RSI,
    RDI,
    R8,
    R9,
    R10,
    R11,
    R12,
    R13,
    R14,
    R15,
];

/// The stack pointer.
pub const SP: u8 = 4;

} // verus!

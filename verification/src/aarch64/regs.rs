//! The numbers of the general-purpose registers of AArch64 that have a role
//! in the procedure call standard.  `R(SP)` is the register itself.
use vstd::prelude::*;

verus! {

/// The registers that carry the first integer arguments of a call.
pub const ARG: [u8; 8] = [0, 1, 2, 3, 4, 5, 6, 7];

/// The registers that carry the integer results of a call.
pub const RES: [u8; 2] = [0, 1];

/// The stack pointer, where an instruction takes it.
pub const SP: u8 = 31;

} // verus!

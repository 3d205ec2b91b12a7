//! The ways in which assembling a program or invoking its result can fail.
use crate::ir::Ins;
use vstd::prelude::*;

verus! {

/// A failure reported by a backend or by an [`Executable`](crate::Executable).
///
/// Variants that carry an [`Ins`] hold the instruction that could not be
/// assembled; variants that carry a `u32` hold the label concerned.
#[derive(Clone, Copy, Debug, PartialEq, Structural)]
pub enum Error {
    /// A register index outside the target's register file.
    InvalidRegisterNumber(Ins),
    InvalidLabel,
    /// An entry offset at or beyond the end of the code.
    InvalidOffset,
    /// More arguments than the calling convention of an entry point takes.
    InvalidArgs,
    /// An immediate that the instruction form cannot represent.
    InvalidImmediate(Ins),
    /// A reference to a label that the program never declares.
    MissingLabel(u32),
    /// A branch whose displacement does not fit the encoding.
    BranchOutOfRange(u32),
    /// A branch whose displacement is not a multiple of four.
    BranchNotMod4(u32),
    /// A scalar type that the memory or vector operation cannot take.
    InvalidType(Ins),
    /// A stack adjustment that is not a multiple of sixteen bytes.
    StackFrameMustBeModulo16(Ins),
    InvalidVectorSize(Ins),
    /// A vector instruction on a target without an encoder for it.
    VectorOperationNotSupported(Ins),
    /// A vector width below what the target's vector registers hold.
    VectorSizeNotSupported(Ins),
    VectorTypeNotSupported(Ins),
    /// A vector operation that has no encoding for the element type.
    UnsupportedVectorOperation(Ins),
    UnsupportedBaseOperation(Ins),
    UnsupportedOperation(Ins),
    /// A data directive with a type other than an unsigned integer of at
    /// most 64 bits.
    InvalidDataType(Ins),
    InvalidRegs(Ins),
    /// An address-of-label whose displacement does not fit the encoding.
    OffsetToLarge(u32),
    /// An index register that the addressing mode cannot encode.
    InvalidAddress(Ins),
    /// A constant-pool reference whose displacement does not fit 32 bits.
    CodeTooBig,
    /// A vector width above the capability ceiling of the assembly.
    CpuLevelTooLow(Ins),
    /// An operand of a kind that the instruction does not take.
    InvalidSrcArgument(Ins),
}

} // verus!

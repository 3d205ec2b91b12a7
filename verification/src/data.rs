//! Constant data in the instruction stream.
use crate::bytes::{le_bytes, le_u16, le_u32, le_u64, le_u8};
use crate::error::Error;
use crate::ir::{Ins, Type};
use crate::state::{emitted, State};
use vstd::prelude::*;

verus! {

/// Constant data: the low bytes of `v`, as many as an unsigned integer type
/// has.
pub open spec fn data_bytes(ty: Type, v: u64, i: Ins) -> Result<Seq<u8>, Error> {
    match ty {
        Type::U8 => Ok(le_bytes(v as int, 1)),
        Type::U16 => Ok(le_bytes(v as int, 2)),
        Type::U32 => Ok(le_bytes(v as int, 4)),
        Type::U64 => Ok(le_bytes(v as int, 8)),
        _ => Err(Error::InvalidDataType(i)),
    }
}

/// Emits constant data.
pub fn gen_data(state: &mut State, ty: Type, v: u64, i: Ins) -> (r: Result<(), Error>)
    ensures
        emitted(old(state)@, r, final(state)@, data_bytes(ty, v, i)),
{
    proof {
        reveal_with_fuel(le_bytes, 5);
    }
    match ty {
        Type::U8 => state.emit(&le_u8((v % 0x100) as u8)),
        Type::U16 => state.emit(&le_u16((v % 0x1_0000) as u16)),
        Type::U32 => {
            proof {
                crate::bytes::lemma_le_bytes_4_low(v as int);
            }
            state.emit(&le_u32((v % 0x1_0000_0000) as u32))
        },
        Type::U64 => state.emit(&le_u64(v)),
        _ => {
            return Err(Error::InvalidDataType(i));
        },
    }
    Ok(())
}

} // verus!

//! Loads and stores with base + displacement addressing.
use crate::bytes::{fits_i8, le_bytes, le_i32, le_i8};
use crate::error::Error;
use crate::ir::{Ins, Scale, Type, R};
use crate::state::{bytes_if, emitted, State};
use crate::x86_64::fields::{modrm, modrm_byte, rex, rex_byte};
use crate::x86_64::regs::RSP;
use vstd::prelude::*;

verus! {

/// The `mod` field of an address: no displacement, one byte or four.
///
/// A base whose low bits are 5 cannot go without a displacement: that
/// encoding stands for something else.
pub open spec fn disp_mode(base: R, disp: i32) -> u8 {
    if disp == 0 && base.to_x86_low() != 5 {
        0
    } else if fits_i8(disp as int) {
        1
    } else {
        2
    }
}

/// The displacement bytes that go with a `mod` field.
pub open spec fn disp_bytes(md: u8, disp: i32) -> Seq<u8> {
    if md == 0 {
        Seq::empty()
    } else if md == 1 {
        le_bytes(disp as int, 1)
    } else {
        le_bytes(disp as int, 4)
    }
}

/// The low three bits of an index register; 4 stands for no index.
pub open spec fn index_field(index: Option<R>) -> u8 {
    match index {
        Some(x) => x.to_x86_low(),
        None => 4,
    }
}

/// The ModRM byte of a memory operand, the SIB byte where one is needed, and
/// the displacement.
///
/// A SIB byte is needed for an index, for a scale, and for a base whose low
/// bits are 4, which in ModRM announce the SIB byte.  The stack pointer
/// cannot be an index.
pub open spec fn addr_bytes(
    r: u8,
    base: R,
    index: Option<R>,
    scale: Scale,
    disp: i32,
    i: Ins,
) -> Result<Seq<u8>, Error> {
    if index == Some(R(RSP)) {
        Err(Error::InvalidAddress(i))
    } else {
        let md = disp_mode(base, disp);
        Ok(
            (if base.to_x86_low() != 4 && scale == Scale::X1 && index is None {
                seq![modrm_byte(md, r, base.to_x86_low())]
            } else {
                seq![
                    modrm_byte(md, r, 4),
                    modrm_byte(scale.to_sib(), index_field(index), base.to_x86_low()),
                ]
            }) + disp_bytes(md, disp),
        )
    }
}

/// How a load or a store of one type is encoded.
#[derive(Clone, Copy, Debug, PartialEq, Structural)]
pub struct MemForm {
    /// Whether the operand-size prefix `66` comes first.
    pub pfx_66: bool,
    /// The `W` bit of the REX prefix.
    pub w: u8,
    /// Whether the opcode is in the two byte map, behind `0F`.
    pub escape: bool,
    /// The opcode.
    pub op: u8,
}

/// The encoding of a load: zero-extending for unsigned types,
/// sign-extending for signed ones.  Only integers of at most 64 bits can be
/// loaded.
pub open spec fn load_form(ty: Type) -> Option<MemForm> {
    match ty {
        Type::U8 => Some(MemForm { pfx_66: false, w: 1, escape: true, op: 0xb6 }),
        Type::U16 => Some(MemForm { pfx_66: true, w: 1, escape: true, op: 0xb7 }),
        Type::U32 => Some(MemForm { pfx_66: false, w: 0, escape: false, op: 0x8b }),
        Type::U64 => Some(MemForm { pfx_66: false, w: 1, escape: false, op: 0x8b }),
        Type::S8 => Some(MemForm { pfx_66: false, w: 1, escape: true, op: 0xbe }),
        Type::S16 => Some(MemForm { pfx_66: true, w: 1, escape: true, op: 0xbf }),
        Type::S32 => Some(MemForm { pfx_66: false, w: 1, escape: false, op: 0x63 }),
        Type::S64 => Some(MemForm { pfx_66: false, w: 1, escape: false, op: 0x8b }),
        _ => None,
    }
}

/// The encoding of a store, which depends on the width alone.  Only integers
/// of at most 64 bits can be stored.
pub open spec fn store_form(ty: Type) -> Option<MemForm> {
    match ty {
        Type::U8 | Type::S8 => Some(MemForm { pfx_66: false, w: 0, escape: false, op: 0x88 }),
        Type::U16 | Type::S16 => Some(MemForm { pfx_66: true, w: 0, escape: false, op: 0x89 }),
        Type::U32 | Type::S32 => Some(MemForm { pfx_66: false, w: 0, escape: false, op: 0x89 }),
        Type::U64 | Type::S64 => Some(MemForm { pfx_66: false, w: 1, escape: false, op: 0x89 }),
        _ => None,
    }
}

/// A load or store in a given form: prefixes, opcode and memory operand.
pub open spec fn load_store_bytes(f: MemForm, r: R, base: R, disp: i32, i: Ins) -> Result<
    Seq<u8>,
    Error,
> {
    match addr_bytes(r.to_x86_low(), base, None, Scale::X1, disp, i) {
        Ok(a) => Ok(
            bytes_if(f.pfx_66, seq![0x66u8]) + seq![
                rex_byte(f.w, r.to_x86_high(), 0, base.to_x86_high()),
            ] + bytes_if(f.escape, seq![0x0fu8]) + seq![f.op] + a,
        ),
        Err(e) => Err(e),
    }
}

/// `Ld(ty, r, base, disp)`.
pub open spec fn ld_bytes(ty: Type, r: R, base: R, disp: i32, i: Ins) -> Result<Seq<u8>, Error> {
    match load_form(ty) {
        Some(f) => load_store_bytes(f, r, base, disp, i),
        None => Err(Error::InvalidType(i)),
    }
}

/// `St(ty, r, base, disp)`.
pub open spec fn st_bytes(ty: Type, r: R, base: R, disp: i32, i: Ins) -> Result<Seq<u8>, Error> {
    match store_form(ty) {
        Some(f) => load_store_bytes(f, r, base, disp, i),
        None => Err(Error::InvalidType(i)),
    }
}

/// The encoding of a load of the given type.
pub fn load_form_of(ty: Type) -> (f: Option<MemForm>)
    ensures
        f == load_form(ty),
        f matches Some(m) ==> m.w < 2,
{
    match ty {
        Type::U8 => Some(MemForm { pfx_66: false, w: 1, escape: true, op: 0xb6 }),
        Type::U16 => Some(MemForm { pfx_66: true, w: 1, escape: true, op: 0xb7 }),
        Type::U32 => Some(MemForm { pfx_66: false, w: 0, escape: false, op: 0x8b }),
        Type::U64 => Some(MemForm { pfx_66: false, w: 1, escape: false, op: 0x8b }),
        Type::S8 => Some(MemForm { pfx_66: false, w: 1, escape: true, op: 0xbe }),
        Type::S16 => Some(MemForm { pfx_66: true, w: 1, escape: true, op: 0xbf }),
        Type::S32 => Some(MemForm { pfx_66: false, w: 1, escape: false, op: 0x63 }),
        Type::S64 => Some(MemForm { pfx_66: false, w: 1, escape: false, op: 0x8b }),
        _ => None,
    }
}

/// The encoding of a store of the given type.
pub fn store_form_of(ty: Type) -> (f: Option<MemForm>)
    ensures
        f == store_form(ty),
        f matches Some(m) ==> m.w < 2,
{
    match ty {
        Type::U8 | Type::S8 => Some(MemForm { pfx_66: false, w: 0, escape: false, op: 0x88 }),
        Type::U16 | Type::S16 => Some(MemForm { pfx_66: true, w: 0, escape: false, op: 0x89 }),
        Type::U32 | Type::S32 => Some(MemForm { pfx_66: false, w: 0, escape: false, op: 0x89 }),
        Type::U64 | Type::S64 => Some(MemForm { pfx_66: false, w: 1, escape: false, op: 0x89 }),
        _ => None,
    }
}

/// Emits the memory operand of an instruction whose `reg` field is `r`.
pub fn gen_addr(
    state: &mut State,
    r: u8,
    base: R,
    index: Option<R>,
    scale: Scale,
    imm: i32,
    i: Ins,
) -> (res: Result<(), Error>)
    requires
        r < 8,
    ensures
        emitted(old(state)@, res, final(state)@, addr_bytes(r, base, index, scale, imm, i)),
{
    if index == Some(R(RSP)) {
        return Err(Error::InvalidAddress(i));
    }
    let modrm_mod: u8 = if imm == 0 && base.to_x86_low() != 5 {
        0
    } else if -0x80 <= imm && imm <= 0x7f {
        1
    } else {
        2
    };
    if base.to_x86_low() != 4 && scale == Scale::X1 && index.is_none() {
        state.emit(&[modrm(modrm_mod, r, base.to_x86_low())]);
    } else {
        let index: u8 = match index {
            Some(x) => x.to_x86_low(),
            None => 4,
        };
        state.emit(&[modrm(modrm_mod, r, 4), modrm(scale.to_sib(), index, base.to_x86_low())]);
    }
    if modrm_mod == 1 {
        state.emit(&le_i8(imm as i8));
    } else if modrm_mod == 2 {
        state.emit(&le_i32(imm));
    }
    assert(state@.code =~= old(state)@.code + addr_bytes(r, base, index, scale, imm, i).unwrap());
    Ok(())
}

/// Emits a load or a store in a given form.
pub fn gen_load_store(state: &mut State, f: MemForm, r: R, ra: R, imm: i32, i: Ins) -> (res: Result<
    (),
    Error,
>)
    requires
        f.w < 2,
    ensures
        emitted(old(state)@, res, final(state)@, load_store_bytes(f, r, ra, imm, i)),
{
    if f.pfx_66 {
        state.emit(&[0x66]);
    }
    state.emit(&[rex(r.to_x86_high(), 0, ra.to_x86_high(), f.w)]);
    if f.escape {
        state.emit(&[0x0f]);
    }
    state.emit(&[f.op]);
    let ghost s1 = state@;
    gen_addr(state, r.to_x86_low(), ra, None, Scale::X1, imm, i)?;
    proof {
        let head = bytes_if(f.pfx_66, seq![0x66u8]) + seq![
            rex_byte(f.w, r.to_x86_high(), 0, ra.to_x86_high()),
        ] + bytes_if(f.escape, seq![0x0fu8]) + seq![f.op];
        let a = addr_bytes(r.to_x86_low(), ra, None, Scale::X1, imm, i).unwrap();
        assert(s1.code =~= old(state)@.code + head);
        assert(state@.code =~= old(state)@.code + (head + a));
    }
    Ok(())
}

} // verus!

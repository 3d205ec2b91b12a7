//! Numbers and their bytes: little-endian byte strings, and quadwords read as
//! signed numbers.
use vstd::prelude::*;

verus! {

/// The `n` low bytes of `v` in two's complement, least significant first.
pub open spec fn le_bytes(v: int, n: nat) -> Seq<u8>
    decreases n,
{
    if n == 0 {
        Seq::empty()
    } else {
        seq![(v % 256) as u8].add(le_bytes(v / 256, (n - 1) as nat))
    }
}

/// Whether a signed 8 bit field holds `v`.
pub open spec fn fits_i8(v: int) -> bool {
    -0x80 <= v <= 0x7f
}

/// Whether a signed 32 bit field holds `v`.
pub open spec fn fits_i32(v: int) -> bool {
    -0x8000_0000 <= v <= 0x7fff_ffff
}

/// The signed number that four little-endian bytes stand for.
pub open spec fn le_i32_value(b: Seq<u8>) -> int
    recommends
        b.len() == 4,
{
    let u = b[0] + 0x100 * b[1] + 0x1_0000 * b[2] + 0x100_0000 * b[3];
    if u >= 0x8000_0000 {
        u - 0x1_0000_0000
    } else {
        u
    }
}

/// The unsigned number that four little-endian bytes stand for.
pub open spec fn le_u32_value(b: Seq<u8>) -> int
    recommends
        b.len() == 4,
{
    b[0] + 0x100 * b[1] + 0x1_0000 * b[2] + 0x100_0000 * b[3]
}

/// Reading back the four bytes of a number below 2^32 gives the number.
pub proof fn lemma_le_u32_round_trip(v: int)
    requires
        0 <= v < 0x1_0000_0000,
    ensures
        le_bytes(v, 4).len() == 4,
        le_u32_value(le_bytes(v, 4)) == v,
{
    reveal_with_fuel(le_bytes, 5);
    let q1 = v / 256;
    let q2 = q1 / 256;
    let q3 = q2 / 256;
    let b = le_bytes(v, 4);
    assert(b.len() == 4);
    assert(b[0] == v % 256);
    assert(b[1] == q1 % 256);
    assert(b[2] == q2 % 256);
    assert(b[3] == q3 % 256);
    assert(0 <= q3 <= 255);
}

/// `le_bytes` gives one byte per position.
pub proof fn lemma_le_bytes_len(v: int, n: nat)
    ensures
        le_bytes(v, n).len() == n,
    decreases n,
{
    if n > 0 {
        lemma_le_bytes_len(v / 256, (n - 1) as nat);
    }
}

/// `le_bytes` gives one byte per position, whatever the number.
pub proof fn lemma_le_bytes_len_all()
    ensures
        forall|v: int, n: nat| #[trigger] le_bytes(v, n).len() == n,
{
    assert forall|v: int, n: nat| #[trigger] le_bytes(v, n).len() == n by {
        lemma_le_bytes_len(v, n);
    }
}

/// Reading back the four bytes of a number in the signed 32 bit range gives
/// the number: the bytes determine it.
pub proof fn lemma_le_i32_round_trip(v: int)
    requires
        i32::MIN <= v <= i32::MAX,
    ensures
        le_bytes(v, 4).len() == 4,
        le_i32_value(le_bytes(v, 4)) == v,
{
    reveal_with_fuel(le_bytes, 5);
    let q1 = v / 256;
    let q2 = q1 / 256;
    let q3 = q2 / 256;
    let b = le_bytes(v, 4);
    assert(b.len() == 4);
    assert(b[0] == v % 256);
    assert(b[1] == q1 % 256);
    assert(b[2] == q2 % 256);
    assert(b[3] == q3 % 256);
    assert(-128 <= q3 <= 127);
}

/// Two numbers that differ by a multiple of 2^32 have the same four bytes.
pub proof fn lemma_le_bytes_4_wrap(v: int)
    ensures
        le_bytes(v + 0x1_0000_0000, 4) == le_bytes(v, 4),
{
    reveal_with_fuel(le_bytes, 5);
    let w = v + 0x1_0000_0000;
    assert(w / 256 == v / 256 + 0x100_0000);
    assert(w / 256 / 256 == v / 256 / 256 + 0x1_0000);
    assert(w / 256 / 256 / 256 == v / 256 / 256 / 256 + 0x100);
    assert(le_bytes(w, 4) =~= le_bytes(v, 4));
}

/// The four low bytes of a number are those of its remainder by 2^32.
pub proof fn lemma_le_bytes_4_low(v: int)
    ensures
        le_bytes(v % 0x1_0000_0000, 4) == le_bytes(v, 4),
{
    reveal_with_fuel(le_bytes, 5);
    let w = v % 0x1_0000_0000;
    let k = v / 0x1_0000_0000;
    assert(v == w + k * 0x1_0000_0000);
    assert(v / 256 == w / 256 + k * 0x100_0000);
    assert(v / 256 / 256 == w / 256 / 256 + k * 0x1_0000);
    assert(v / 256 / 256 / 256 == w / 256 / 256 / 256 + k * 0x100);
    assert(le_bytes(w, 4) =~= le_bytes(v, 4));
}

/// Eight bytes are the four low bytes followed by the four bytes of the rest.
pub proof fn lemma_le_bytes_split(v: int)
    ensures
        le_bytes(v, 8) == le_bytes(v, 4) + le_bytes(v / 256 / 256 / 256 / 256, 4),
{
    reveal_with_fuel(le_bytes, 9);
    assert(le_bytes(v, 8) =~= le_bytes(v, 4) + le_bytes(v / 256 / 256 / 256 / 256, 4));
}

/// Two numbers that differ by a multiple of 2^64 have the same eight bytes.
pub proof fn lemma_le_bytes_8_wrap(v: int)
    ensures
        le_bytes(v + 0x1_0000_0000_0000_0000, 8) == le_bytes(v, 8),
{
    let w = v + 0x1_0000_0000_0000_0000;
    lemma_le_bytes_split(v);
    lemma_le_bytes_split(w);
    reveal_with_fuel(le_bytes, 5);
    assert(w / 256 == v / 256 + 0x100_0000_0000_0000);
    assert(w / 256 / 256 == v / 256 / 256 + 0x1_0000_0000_0000);
    assert(w / 256 / 256 / 256 == v / 256 / 256 / 256 + 0x100_0000_0000);
    assert(w / 256 / 256 / 256 / 256 == v / 256 / 256 / 256 / 256 + 0x1_0000_0000);
    assert(le_bytes(w, 4) =~= le_bytes(v, 4));
    lemma_le_bytes_4_wrap(v / 256 / 256 / 256 / 256);
}

/// The byte of `x`.
pub fn le_u8(x: u8) -> (b: [u8; 1])
    ensures
        b@ == le_bytes(x as int, 1),
{
    proof {
        reveal_with_fuel(le_bytes, 2);
    }
    let b: [u8; 1] = [x];
    assert(b@ =~= le_bytes(x as int, 1));
    b
}

/// The two bytes of `x`, least significant first.
pub fn le_u16(x: u16) -> (b: [u8; 2])
    ensures
        b@ == le_bytes(x as int, 2),
{
    proof {
        reveal_with_fuel(le_bytes, 3);
    }
    let b: [u8; 2] = [(x % 256) as u8, (x / 256) as u8];
    assert(b@ =~= le_bytes(x as int, 2));
    b
}

/// The four bytes of `x`, least significant first.
pub fn le_u32(x: u32) -> (b: [u8; 4])
    ensures
        b@ == le_bytes(x as int, 4),
{
    proof {
        reveal_with_fuel(le_bytes, 5);
    }
    let q1: u32 = x / 256;
    let q2: u32 = q1 / 256;
    let q3: u32 = q2 / 256;
    let b: [u8; 4] = [(x % 256) as u8, (q1 % 256) as u8, (q2 % 256) as u8, q3 as u8];
    assert(b@ =~= le_bytes(x as int, 4));
    b
}

/// The eight bytes of `x`, least significant first.
pub fn le_u64(x: u64) -> (b: [u8; 8])
    ensures
        b@ == le_bytes(x as int, 8),
{
    let q1: u64 = x / 256;
    let q2: u64 = q1 / 256;
    let q3: u64 = q2 / 256;
    let q4: u64 = q3 / 256;
    let l: [u8; 4] = [(x % 256) as u8, (q1 % 256) as u8, (q2 % 256) as u8, (q3 % 256) as u8];
    let h = le_u32(q4 as u32);
    let b: [u8; 8] = [l[0], l[1], l[2], l[3], h[0], h[1], h[2], h[3]];
    proof {
        lemma_le_bytes_split(x as int);
        reveal_with_fuel(le_bytes, 5);
        assert(l@ =~= le_bytes(x as int, 4));
        assert(b@ =~= l@ + h@);
    }
    b
}

/// The byte of `x` in two's complement.
pub fn le_i8(x: i8) -> (b: [u8; 1])
    ensures
        b@ == le_bytes(x as int, 1),
{
    let w: i16 = x as i16;
    let u: u8 = if w < 0 {
        (w + 0x100) as u8
    } else {
        w as u8
    };
    proof {
        reveal_with_fuel(le_bytes, 2);
    }
    let b: [u8; 1] = [u];
    assert(b@ =~= le_bytes(x as int, 1));
    b
}

/// The four bytes of `x` in two's complement, least significant first.
pub fn le_i32(x: i32) -> (b: [u8; 4])
    ensures
        b@ == le_bytes(x as int, 4),
{
    let w: i64 = x as i64;
    let u: u32 = if w < 0 {
        (w + 0x1_0000_0000) as u32
    } else {
        w as u32
    };
    proof {
        lemma_le_bytes_4_wrap(x as int);
    }
    le_u32(u)
}

/// The eight bytes of `x` in two's complement, least significant first.
pub fn le_i64(x: i64) -> (b: [u8; 8])
    ensures
        b@ == le_bytes(x as int, 8),
{
    let u: u64 = if x < 0 {
        ((x + 0x7fff_ffff_ffff_ffff) + 1) as u64 + 0x8000_0000_0000_0000
    } else {
        x as u64
    };
    proof {
        lemma_le_bytes_8_wrap(x as int);
    }
    le_u64(u)
}

/// A quadword read as a number in two's complement.
pub open spec fn signed(v: u64) -> int {
    if v >= 0x8000_0000_0000_0000 {
        v - 0x1_0000_0000_0000_0000
    } else {
        v as int
    }
}

/// The quadword that holds the low 64 bits of a number.
pub open spec fn wrap(x: int) -> u64 {
    (x % 0x1_0000_0000_0000_0000) as u64
}

/// The signed number with the same 64 bits as `v`.
pub open spec fn as_signed(v: u64) -> i64 {
    signed(v) as i64
}

/// The signed number with the same 64 bits as `v`.
pub fn to_signed(v: u64) -> (r: i64)
    ensures
        r == as_signed(v),
{
    if v >= 0x8000_0000_0000_0000 {
        ((v - 0x8000_0000_0000_0000) as i64) - 0x4000_0000_0000_0000 - 0x4000_0000_0000_0000
    } else {
        v as i64
    }
}

} // verus!

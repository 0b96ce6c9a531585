//! Single-precision floats carried as their IEEE-754 bit patterns, and
//! little-endian encoding of integers.
//!
//! The library never computes with floating-point values: a vertex coordinate,
//! a quaternion component or a material factor is held as the `u32` that
//! `f32::to_bits` gives for it. Negating a float is flipping its sign bit,
//! which is exactly what IEEE-754 (and Rust's unary `-`) does.
use vstd::prelude::*;

verus! {

/// The sign bit of an `f32` bit pattern.
pub const SIGN_BIT: u32 = 0x8000_0000u32;

/// `0.0_f32.to_bits()`.
pub const F32_ZERO: u32 = 0u32;

/// `1.0_f32.to_bits()`.
pub const F32_ONE: u32 = 0x3F80_0000u32;

/// `0.5_f32.to_bits()`.
pub const F32_HALF: u32 = 0x3F00_0000u32;

/// The bit pattern of `-x` for the float whose bit pattern is `b`.
pub open spec fn spec_neg(b: u32) -> u32 {
    b ^ SIGN_BIT
}

/// Negate a float given by its bit pattern.
pub fn neg(b: u32) -> (r: u32)
    ensures
        r == spec_neg(b),
{
    b ^ SIGN_BIT
}

/// `x == 0.0` for the float whose bit pattern is `b` (true for `+0.0` and `-0.0`).
pub open spec fn spec_is_zero(b: u32) -> bool {
    b == 0 || b == SIGN_BIT
}

/// The little-endian `u16` held by two bytes.
pub open spec fn le_u16(b0: u8, b1: u8) -> u16 {
    (b0 as int + 256 * (b1 as int)) as u16
}

/// The little-endian `u32` held by four bytes.
pub open spec fn le_u32(b0: u8, b1: u8, b2: u8, b3: u8) -> u32 {
    (b0 as int + 256 * (b1 as int) + 65536 * (b2 as int) + 16777216 * (b3 as int)) as u32
}

} // verus!

verus! {

/// The float is a NaN: all exponent bits set and a non-zero mantissa.
pub open spec fn spec_is_nan(b: u32) -> bool {
    b % 0x8000_0000 > 0x7F80_0000
}

/// `a == b` as IEEE-754 compares floats: `+0.0 == -0.0`, and a NaN equals nothing.
pub open spec fn spec_f32_eq(a: u32, b: u32) -> bool {
    (spec_is_zero(a) && spec_is_zero(b)) || (a == b && !spec_is_nan(a))
}

/// `x < 0.0`: the sign bit is set and the value is neither a zero nor a NaN.
pub open spec fn spec_is_negative(b: u32) -> bool {
    SIGN_BIT < b <= 0xFF80_0000
}

/// `x == 0.0`.
pub fn is_zero(b: u32) -> (r: bool)
    ensures
        r == spec_is_zero(b),
{
    b == 0 || b == SIGN_BIT
}

/// `x < 0.0`.
pub fn is_negative(b: u32) -> (r: bool)
    ensures
        r == spec_is_negative(b),
{
    SIGN_BIT < b && b <= 0xFF80_0000
}

/// The four little-endian bytes of `x`.
pub open spec fn le_bytes_u32(x: u32) -> Seq<u8> {
    seq![(x % 256) as u8, (x / 256 % 256) as u8, (x / 65536 % 256) as u8, (x / 16777216) as u8]
}

/// The two little-endian bytes of `x`.
pub open spec fn le_bytes_u16(x: u16) -> Seq<u8> {
    seq![(x % 256) as u8, (x / 256) as u8]
}

/// Append the little-endian bytes of `x`.
pub fn push_u32_le(buf: &mut Vec<u8>, x: u32)
    ensures
        final(buf)@ == old(buf)@ + le_bytes_u32(x),
{
    buf.push((x % 256) as u8);
    buf.push((x / 256 % 256) as u8);
    buf.push((x / 65536 % 256) as u8);
    buf.push((x / 16777216) as u8);
    assert(buf@ =~= old(buf)@ + le_bytes_u32(x));
}

/// Append the little-endian bytes of `x`.
pub fn push_u16_le(buf: &mut Vec<u8>, x: u16)
    ensures
        final(buf)@ == old(buf)@ + le_bytes_u16(x),
{
    buf.push((x % 256) as u8);
    buf.push((x / 256) as u8);
    assert(buf@ =~= old(buf)@ + le_bytes_u16(x));
}

/// Reading back the little-endian bytes of a `u32` gives the `u32`.
pub proof fn lemma_le_u32_roundtrip(x: u32)
    ensures
        le_u32(le_bytes_u32(x)[0], le_bytes_u32(x)[1], le_bytes_u32(x)[2], le_bytes_u32(x)[3]) == x,
{
    let b = le_bytes_u32(x);
    assert(b[0] == x % 256 && b[1] == x / 256 % 256 && b[2] == x / 65536 % 256 && b[3] == x / 16777216);
    assert((x % 256) + 256 * (x / 256 % 256) + 65536 * (x / 65536 % 256) + 16777216 * (x / 16777216) == x) by (nonlinear_arith)
        requires x <= 0xFFFF_FFFF;
}

/// Reading back the little-endian bytes of a `u16` gives the `u16`.
pub proof fn lemma_le_u16_roundtrip(x: u16)
    ensures
        le_u16(le_bytes_u16(x)[0], le_bytes_u16(x)[1]) == x,
{
    let b = le_bytes_u16(x);
    assert(b[0] == x % 256 && b[1] == x / 256);
    assert((x % 256) + 256 * (x / 256) == x) by (nonlinear_arith);
}

} // verus!

//! Little-endian integer decoding on byte slices, backed by `byteorder`.
use vstd::prelude::*;
use byteorder::{ByteOrder, LittleEndian};

verus! {

/// The unsigned 16-bit value stored little-endian at `p` in `s`.
pub open spec fn spec_u16_le(s: Seq<u8>, p: int) -> int {
    s[p] + 256 * s[p + 1]
}

/// The unsigned 32-bit value stored little-endian at `p` in `s`.
pub open spec fn spec_u32_le(s: Seq<u8>, p: int) -> int {
    s[p] + 256 * s[p + 1] + 65536 * s[p + 2] + 16777216 * s[p + 3]
}

/// The signed 16-bit value stored little-endian (two's complement) at `p` in `s`.
pub open spec fn spec_i16_le(s: Seq<u8>, p: int) -> int {
    let u = spec_u16_le(s, p);
    if u < 0x8000 { u } else { u - 0x1_0000 }
}

/// The signed 32-bit value stored little-endian (two's complement) at `p` in `s`.
pub open spec fn spec_i32_le(s: Seq<u8>, p: int) -> int {
    let u = spec_u32_le(s, p);
    if u < 0x8000_0000 { u } else { u - 0x1_0000_0000 }
}

/// `byteorder::LittleEndian::read_u16` on the two bytes at `pos`.
/// Trusted: it returns `buf[pos] + 256 * buf[pos + 1]` (the crate builds it
/// with `u16::from_le_bytes` on the first two bytes of the slice it is given).
#[verifier::external_body]
pub(crate) fn read_u16_le(buf: &[u8], pos: usize) -> (r: u16)
    requires
        pos + 2 <= buf.len(),
    ensures
        r == spec_u16_le(buf@, pos as int),
{
    LittleEndian::read_u16(&buf[pos..])
}

/// `byteorder::LittleEndian::read_u32` on the four bytes at `pos`.
/// Trusted: it returns the little-endian value of those four bytes (the crate
/// builds it with `u32::from_le_bytes`).
#[verifier::external_body]
pub(crate) fn read_u32_le(buf: &[u8], pos: usize) -> (r: u32)
    requires
        pos + 4 <= buf.len(),
    ensures
        r == spec_u32_le(buf@, pos as int),
{
    LittleEndian::read_u32(&buf[pos..])
}

/// `byteorder::LittleEndian::read_i16` on the two bytes at `pos`.
/// Trusted: it returns those two bytes read as a little-endian `u16` and
/// reinterpreted as two's complement (the crate's default `read_u16(buf) as i16`).
#[verifier::external_body]
pub(crate) fn read_i16_le(buf: &[u8], pos: usize) -> (r: i16)
    requires
        pos + 2 <= buf.len(),
    ensures
        r == spec_i16_le(buf@, pos as int),
{
    LittleEndian::read_i16(&buf[pos..])
}

/// `byteorder::LittleEndian::read_i32` on the four bytes at `pos`.
/// Trusted: it returns those four bytes read as a little-endian `u32` and
/// reinterpreted as two's complement (the crate's default `read_u32(buf) as i32`).
#[verifier::external_body]
pub(crate) fn read_i32_le(buf: &[u8], pos: usize) -> (r: i32)
    requires
        pos + 4 <= buf.len(),
    ensures
        r == spec_i32_le(buf@, pos as int),
{
    LittleEndian::read_i32(&buf[pos..])
}

/// Little-endian order: the byte at `p` is the low byte of the value, a
/// 32-bit value is the 16-bit value at `p` plus 65536 times the one at
/// `p + 2`, and a signed value is the unsigned one taken into the signed
/// range (equal modulo 2^16 or 2^32), negative exactly when the top bit of
/// its last byte is set.
pub proof fn law_little_endian_layout(s: Seq<u8>, p: int)
    requires
        0 <= p,
        p + 4 <= s.len(),
    ensures
        spec_u16_le(s, p) % 256 == s[p] as int,
        spec_u16_le(s, p) / 256 == s[p + 1] as int,
        spec_u32_le(s, p) == spec_u16_le(s, p) + 65536 * spec_u16_le(s, p + 2),
        0 <= spec_u32_le(s, p) < 0x1_0000_0000,
        -0x8000 <= spec_i16_le(s, p) < 0x8000,
        (spec_i16_le(s, p) - spec_u16_le(s, p)) % 0x1_0000 == 0,
        spec_i16_le(s, p) < 0 <==> s[p + 1] >= 128,
        -0x8000_0000 <= spec_i32_le(s, p) < 0x8000_0000,
        (spec_i32_le(s, p) - spec_u32_le(s, p)) % 0x1_0000_0000 == 0,
        spec_i32_le(s, p) < 0 <==> s[p + 3] >= 128,
{
}

} // verus!

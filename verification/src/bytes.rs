use vstd::prelude::*;

verus! {

/// A reading as the device encoded it, before it is turned into a number
/// and scaled: an integer, the bit pattern of an IEEE-754 float, a flag
/// (1 or 0), or a 16-bit value normalized by 32768.
#[derive(Debug, Clone, Copy, PartialEq, Eq, Structural)]
pub enum RawValue {
    Unsigned(u64),
    Signed(i64),
    Float32(u32),
    Float64(u64),
    Flag(bool),
    Normalized(i16),
}

/// The fault of a decoder that would read past the end of its buffer or
/// overflow a counter, where the wire format leaves no sensible reading.
#[derive(Debug, Clone, Copy, PartialEq, Eq, Structural)]
pub struct FrameFault;

/// Big-endian value of the bytes of `s`, kept modulo `m` at every step
/// (what shifting left by eight and or-ing in a byte computes in a
/// fixed-width register of modulus `m`).
pub open spec fn fold_be(s: Seq<u8>, m: int) -> int
    decreases s.len(),
{
    if s.len() == 0 {
        0
    } else {
        (fold_be(s.drop_last(), m) * 256 + s.last()) % m
    }
}

/// Big-endian value of two bytes.
pub open spec fn be16(a: u8, b: u8) -> int {
    a * 256 + b
}

/// Big-endian value of four bytes.
pub open spec fn be32(a: u8, b: u8, c: u8, d: u8) -> int {
    a * 16777216 + b * 65536 + c * 256 + d
}

/// Big-endian value of eight bytes.
pub open spec fn be64(s: Seq<u8>) -> int {
    be32(s[0], s[1], s[2], s[3]) * 4294967296 + be32(s[4], s[5], s[6], s[7])
}

/// Two's-complement reading of a 16-bit pattern.
pub open spec fn signed16(u: int) -> int {
    if u >= 32768 { u - 65536 } else { u }
}

/// Two's-complement reading of a 32-bit pattern.
pub open spec fn signed32(u: int) -> int {
    if u >= 2147483648 { u - 4294967296 } else { u }
}

/// Bytes of a 16-bit value, most significant first.
pub open spec fn u16_be(x: int) -> Seq<u8> {
    seq![(x / 256) as u8, (x % 256) as u8]
}

/// Bytes of a 16-bit value, least significant first.
pub open spec fn u16_le(x: int) -> Seq<u8> {
    seq![(x % 256) as u8, (x / 256) as u8]
}

/// Bytes of a 32-bit value, least significant first.
pub open spec fn u32_le(x: int) -> Seq<u8> {
    seq![(x % 256) as u8, ((x / 256) % 256) as u8, ((x / 65536) % 256) as u8, (x / 16777216) as u8]
}

/// Bytes of a 32-bit value, most significant first.
pub open spec fn u32_be(x: int) -> Seq<u8> {
    seq![(x / 16777216) as u8, ((x / 65536) % 256) as u8, ((x / 256) % 256) as u8, (x % 256) as u8]
}

/// Big-endian value of two bytes.
pub fn be16_of(a: u8, b: u8) -> (r: u16)
    ensures
        r == be16(a, b),
{
    (a as u16) * 256 + (b as u16)
}

/// Two's-complement value of two big-endian bytes.
pub fn i16_of(a: u8, b: u8) -> (r: i16)
    ensures
        r == signed16(be16(a, b)),
{
    let u = be16_of(a, b);
    if u >= 32768 {
        (u as i32 - 65536) as i16
    } else {
        u as i16
    }
}

/// Big-endian value of four bytes.
pub fn be32_of(a: u8, b: u8, c: u8, d: u8) -> (r: u32)
    ensures
        r == be32(a, b, c, d),
{
    (a as u32) * 16777216 + (b as u32) * 65536 + (c as u32) * 256 + (d as u32)
}

/// Two's-complement value of four big-endian bytes.
pub fn i32_of(a: u8, b: u8, c: u8, d: u8) -> (r: i32)
    ensures
        r == signed32(be32(a, b, c, d)),
{
    let u = be32_of(a, b, c, d);
    if u >= 2147483648 {
        (u as i64 - 4294967296) as i32
    } else {
        u as i32
    }
}

/// Big-endian value of the first eight bytes.
pub fn be64_of(s: &[u8]) -> (r: u64)
    requires
        s@.len() >= 8,
    ensures
        r == be64(s@),
{
    let hi = be32_of(s[0], s[1], s[2], s[3]) as u64;
    let lo = be32_of(s[4], s[5], s[6], s[7]) as u64;
    assert(hi * 4294967296 + lo <= u64::MAX) by (nonlinear_arith)
        requires
            hi <= 4294967295,
            lo <= 4294967295,
    ;
    hi * 4294967296 + lo
}

/// Appends the bytes of `x`, most significant first.
pub fn push_u16_be(v: &mut Vec<u8>, x: u16)
    ensures
        final(v)@ == old(v)@ + u16_be(x as int),
{
    v.push((x / 256) as u8);
    v.push((x % 256) as u8);
}

/// Appends the bytes of `x`, least significant first.
pub fn push_u16_le(v: &mut Vec<u8>, x: u16)
    ensures
        final(v)@ == old(v)@ + u16_le(x as int),
{
    v.push((x % 256) as u8);
    v.push((x / 256) as u8);
}

/// Appends the bytes of `x`, least significant first.
pub fn push_u32_le(v: &mut Vec<u8>, x: u32)
    ensures
        final(v)@ == old(v)@ + u32_le(x as int),
{
    v.push((x % 256) as u8);
    v.push(((x / 256) % 256) as u8);
    v.push(((x / 65536) % 256) as u8);
    v.push((x / 16777216) as u8);
}

/// Appends the bytes of `x`, most significant first.
pub fn push_u32_be(v: &mut Vec<u8>, x: u32)
    ensures
        final(v)@ == old(v)@ + u32_be(x as int),
{
    v.push((x / 16777216) as u8);
    v.push(((x / 65536) % 256) as u8);
    v.push(((x / 256) % 256) as u8);
    v.push((x % 256) as u8);
}

/// Appends all bytes of `src`.
pub fn push_all(v: &mut Vec<u8>, src: &[u8])
    ensures
        final(v)@ == old(v)@ + src@,
{
    v.extend_from_slice(src);
}

/// The data type names are distinct texts.
pub(crate) proof fn lemma_dtype_names_distinct()
    ensures
        "int16"@ != "uint16"@ && "int16"@ != "int32"@ && "int16"@ != "uint32"@ && "int16"@ != "float32"@
            && "int16"@ != "float64"@ && "int16"@ != "bool"@,
        "uint16"@ != "int32"@ && "uint16"@ != "uint32"@ && "uint16"@ != "float32"@ && "uint16"@ != "float64"@
            && "uint16"@ != "bool"@,
        "int32"@ != "uint32"@ && "int32"@ != "float32"@ && "int32"@ != "float64"@ && "int32"@ != "bool"@,
        "uint32"@ != "float32"@ && "uint32"@ != "float64"@ && "uint32"@ != "bool"@,
        "float32"@ != "float64"@ && "float32"@ != "bool"@,
        "float64"@ != "bool"@,
{
    reveal_strlit("int16");
    reveal_strlit("uint16");
    reveal_strlit("int32");
    reveal_strlit("uint32");
    reveal_strlit("float32");
    reveal_strlit("float64");
    reveal_strlit("bool");
    assert("int16"@.len() == 5 && "int32"@.len() == 5 && "int16"@[3] != "int32"@[3]);
    assert("uint16"@.len() == 6 && "uint32"@.len() == 6 && "uint16"@[4] != "uint32"@[4]);
    assert("float32"@.len() == 7 && "float64"@.len() == 7 && "float32"@[5] != "float64"@[5]);
    assert("bool"@.len() == 4);
}

/// The four big-endian bytes of a 32-bit value give it back.
pub(crate) proof fn lemma_u32_be_value(x: u32)
    ensures
        u32_be(x as int)[0] * 0x100_0000 + u32_be(x as int)[1] * 0x1_0000 + u32_be(x as int)[2] * 0x100
            + u32_be(x as int)[3] == x,
{
    assert(x == (x / 16777216) * 16777216 + ((x / 65536) % 256) * 65536 + ((x / 256) % 256) * 256 + x % 256)
        by (bit_vector);
    assert(x / 16777216 < 256);
}

/// The four little-endian bytes of a 32-bit value give it back.
pub(crate) proof fn lemma_u32_le_value(x: u32)
    ensures
        u32_le(x as int)[0] + u32_le(x as int)[1] * 0x100 + u32_le(x as int)[2] * 0x1_0000
            + u32_le(x as int)[3] * 0x100_0000 == x,
{
    assert(x == (x / 16777216) * 16777216 + ((x / 65536) % 256) * 65536 + ((x / 256) % 256) * 256 + x % 256)
        by (bit_vector);
    assert(x / 16777216 < 256);
}

} // verus!

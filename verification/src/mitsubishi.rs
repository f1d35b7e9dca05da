use vstd::prelude::*;
use crate::bytes::{lemma_dtype_names_distinct, FrameFault, RawValue, be16, be16_of, be32, be32_of, be64, be64_of, i16_of, i32_of, signed16, signed32, u16_le, push_u16_le};
use crate::text::{is_digit, parse_unsigned, parsed_unsigned, text_eq, to_uppercase, uppercase_of};

verus! {

/// Unit struct naming the Mitsubishi MC (3E frame) driver.
#[derive(Debug, Clone, Copy, PartialEq, Eq, Structural)]
pub struct MitsubishiMCDriver;

impl MitsubishiMCDriver {
    /// The driver.
    pub fn new() -> (r: Self)
        ensures
            r == MitsubishiMCDriver,
    {
        MitsubishiMCDriver
    }

    /// The protocol's name as the logs show it.
    pub fn protocol_name(&self) -> (r: &'static str)
        ensures
            r@ == "Mitsubishi MC"@,
    {
        "Mitsubishi MC"
    }
}

/// The device code for an upper-cased device name: D 0xA8, M 0x90, X 0x9C,
/// Y 0x9D, W 0xB4, L 0x92, anything else D.
pub open spec fn mc_device_code_of(upper: Seq<char>) -> u8 {
    if upper == "D"@ {
        0xA8
    } else if upper == "M"@ {
        0x90
    } else if upper == "X"@ {
        0x9C
    } else if upper == "Y"@ {
        0x9D
    } else if upper == "W"@ {
        0xB4
    } else if upper == "L"@ {
        0x92
    } else {
        0xA8
    }
}

/// The device code of an upper-cased device name.
pub fn mc_device_code(upper: &str) -> (r: u8)
    ensures
        r == mc_device_code_of(upper@),
{
    if text_eq(upper, "D") {
        0xA8
    } else if text_eq(upper, "M") {
        0x90
    } else if text_eq(upper, "X") {
        0x9C
    } else if text_eq(upper, "Y") {
        0x9D
    } else if text_eq(upper, "W") {
        0xB4
    } else if text_eq(upper, "L") {
        0x92
    } else {
        0xA8
    }
}

/// Index of the first decimal digit of `s` at or after `i`, or the length
/// of `s` where there is none.
pub open spec fn first_digit_from(s: Seq<char>, i: int) -> int
    decreases s.len() - i,
{
    if i < 0 || i >= s.len() {
        s.len() as int
    } else if is_digit(s[i]) {
        i
    } else {
        first_digit_from(s, i + 1)
    }
}

/// Largest device number that may be written after the device name: the
/// number plus any register address still fits in 32 bits.
pub const MC_WRITTEN_MAX: u64 = 4294901760;

/// Device code and head device number of a function code, already upper
/// cased, and a register address. A function code such as `D100` is a device
/// name followed by the number of its first device: the code is that of the
/// name and the head device is that number plus the register address. A
/// function code without such a number (`D`, or a name with no digits) gives
/// the code of the whole text and the register address itself.
pub open spec fn mc_device_of(upper: Seq<char>, register_addr: u16) -> (u8, u32) {
    let k = first_digit_from(upper, 0);
    match parsed_unsigned(upper.subrange(k, upper.len() as int), MC_WRITTEN_MAX as int) {
        Some(base) => (mc_device_code_of(upper.subrange(0, k)), (base + register_addr) as u32),
        None => (mc_device_code_of(upper), register_addr as u32),
    }
}

/// Device code and head device number of a point, from its function code
/// (a device name in any case, optionally followed by a device number, as in
/// `D100`) and register address.
pub fn parse_mc_device(func_code: &str, register_addr: u16) -> (r: (u8, u32))
    ensures
        r == mc_device_of(uppercase_of(func_code@), register_addr),
{
    let upper = to_uppercase(func_code);
    let u = upper.as_str();
    let n = u.unicode_len();
    let mut k: usize = 0;
    while k < n && !('0' <= u.get_char(k) && u.get_char(k) <= '9')
        invariant
            n == u@.len(),
            k <= n,
            first_digit_from(u@, 0) == first_digit_from(u@, k as int),
        decreases n - k,
    {
        k = k + 1;
    }
    assert(first_digit_from(u@, k as int) == k);
    match parse_unsigned(u.substring_char(k, n), MC_WRITTEN_MAX) {
        Some(base) => {
            let code = mc_device_code(u.substring_char(0, k));
            (code, base as u32 + register_addr as u32)
        },
        None => (mc_device_code(u), register_addr as u32),
    }
}

/// A 3E binary batch-read request: subheader 0x5000, network 0, PC 0xFF,
/// module 0x03FF, station 0, monitoring timer 12, command 0x0401,
/// subcommand 0, head device (low three bytes, little-endian), device code,
/// word count (little-endian).
pub open spec fn mc_3e_read(dev_code: u8, offset: u32, count: u16) -> Seq<u8> {
    seq![0x50u8, 0x00, 0x00, 0xFF, 0xFF, 0x03, 0x00, 0x0C, 0x00, 0x01, 0x04, 0x00, 0x00,
        dev_code, (offset % 256) as u8, ((offset / 256) % 256) as u8, ((offset / 65536) % 256) as u8]
        + u16_le(count as int)
}

/// A batch-read request is 19 bytes: subheader 0x50 0x00, command 0x0401
/// little-endian at bytes 9-10, the device code at byte 13, the head device
/// little-endian in bytes 14-16 (its low 24 bits), and the word count
/// little-endian at bytes 17-18.
pub proof fn law_3e_read_layout(dev_code: u8, offset: u32, count: u16)
    ensures
        ({
            let r = mc_3e_read(dev_code, offset, count);
            &&& r.len() == 19
            &&& r[0] == 0x50 && r[1] == 0x00
            &&& r[9] == 0x01 && r[10] == 0x04
            &&& r[13] == dev_code
            &&& r[14] + r[15] * 256 + r[16] * 65536 == offset % 0x100_0000
            &&& r[17] + r[18] * 256 == count
        }),
{
    let r = mc_3e_read(dev_code, offset, count);
    assert(r[14] == offset % 256 && r[15] == (offset / 256) % 256 && r[16] == (offset / 65536) % 256);
    assert(offset % 256 + ((offset / 256) % 256) * 256 + ((offset / 65536) % 256) * 65536 == offset % 0x100_0000);
}

/// Builds a 3E binary batch-read request.
pub fn build_mc_3e_read(dev_code: u8, offset: u32, count: u16) -> (r: Vec<u8>)
    ensures
        r@ == mc_3e_read(dev_code, offset, count),
{
    let mut f: Vec<u8> = Vec::new();
    f.push(0x50);
    f.push(0x00);
    f.push(0x00);
    f.push(0xFF);
    f.push(0xFF);
    f.push(0x03);
    f.push(0x00);
    f.push(0x0C);
    f.push(0x00);
    f.push(0x01);
    f.push(0x04);
    f.push(0x00);
    f.push(0x00);
    f.push(dev_code);
    f.push((offset % 256) as u8);
    f.push(((offset / 256) % 256) as u8);
    f.push(((offset / 65536) % 256) as u8);
    push_u16_le(&mut f, count);
    assert(f@ =~= mc_3e_read(dev_code, offset, count));
    f
}

/// Little-endian 64-bit value of the first eight bytes.
pub open spec fn le64(d: Seq<u8>) -> int {
    be64(seq![d[7], d[6], d[5], d[4], d[3], d[2], d[1], d[0]])
}

/// The value of a batch-read response: subheader 0xD000 and end code 0
/// (both little-endian), then the data, read little-endian as the data
/// type says. A type whose size the data does not reach, or an unknown
/// type, gives the first word; `bool` gives bit 0 of the first word. Data
/// of a single byte has no first word.
pub open spec fn mc_value(buf: Seq<u8>, dtype: Seq<char>) -> Result<Option<RawValue>, FrameFault> {
    if buf.len() < 11 || be16(buf[1], buf[0]) != 0xD000 || be16(buf[10], buf[9]) != 0 {
        Ok(None)
    } else {
        let d = buf.subrange(11, buf.len() as int);
        if d.len() == 0 {
            Ok(None)
        } else if dtype == "int16"@ && d.len() >= 2 {
            Ok(Some(RawValue::Signed(signed16(be16(d[1], d[0])) as i64)))
        } else if dtype == "uint16"@ && d.len() >= 2 {
            Ok(Some(RawValue::Unsigned(be16(d[1], d[0]) as u64)))
        } else if dtype == "int32"@ && d.len() >= 4 {
            Ok(Some(RawValue::Signed(signed32(be32(d[3], d[2], d[1], d[0])) as i64)))
        } else if dtype == "uint32"@ && d.len() >= 4 {
            Ok(Some(RawValue::Unsigned(be32(d[3], d[2], d[1], d[0]) as u64)))
        } else if dtype == "float32"@ && d.len() >= 4 {
            Ok(Some(RawValue::Float32(be32(d[3], d[2], d[1], d[0]) as u32)))
        } else if dtype == "float64"@ && d.len() >= 8 {
            Ok(Some(RawValue::Float64(le64(d) as u64)))
        } else if d.len() < 2 {
            Err(FrameFault)
        } else if dtype == "bool"@ {
            Ok(Some(RawValue::Flag(be16(d[1], d[0]) % 2 == 1)))
        } else {
            Ok(Some(RawValue::Unsigned(be16(d[1], d[0]) as u64)))
        }
    }
}

/// The data of a successful batch-read response (subheader `00 D0`, end
/// code `00 00` at bytes 9-10, data `d` from byte 11) decodes
/// little-endian: `int16` and `int32` as two's-complement numbers, `uint16`
/// and `uint32` as plain numbers, `float32` and `float64` as the IEEE-754
/// patterns of four and eight bytes, `bool` as bit 0 of the first word.
pub proof fn law_mc_data_types(m: Seq<u8>, d: Seq<u8>)
    requires
        m.len() == 7,
        d.len() >= 4,
    ensures
        ({
            let b = seq![0x00u8, 0xD0] + m + seq![0x00u8, 0x00] + d;
            let u16v = d[1] * 256 + d[0];
            let u32v = d[3] * 0x100_0000 + d[2] * 0x1_0000 + d[1] * 0x100 + d[0];
            &&& mc_value(b, "int16"@) == Ok::<Option<RawValue>, FrameFault>(Some(RawValue::Signed(
                (if d[1] >= 0x80 { u16v - 0x1_0000 } else { u16v }) as i64)))
            &&& mc_value(b, "uint16"@) == Ok::<Option<RawValue>, FrameFault>(Some(RawValue::Unsigned(u16v as u64)))
            &&& mc_value(b, "int32"@) == Ok::<Option<RawValue>, FrameFault>(Some(RawValue::Signed(
                (if d[3] >= 0x80 { u32v - 0x1_0000_0000 } else { u32v }) as i64)))
            &&& mc_value(b, "uint32"@) == Ok::<Option<RawValue>, FrameFault>(Some(RawValue::Unsigned(u32v as u64)))
            &&& mc_value(b, "float32"@) == Ok::<Option<RawValue>, FrameFault>(Some(RawValue::Float32(u32v as u32)))
            &&& mc_value(b, "bool"@) == Ok::<Option<RawValue>, FrameFault>(Some(RawValue::Flag(d[0] % 2 == 1)))
            &&& d.len() >= 8 ==> mc_value(b, "float64"@) == Ok::<Option<RawValue>, FrameFault>(Some(RawValue::Float64(
                (d[7] * 0x100_0000_0000_0000 + d[6] * 0x1_0000_0000_0000 + d[5] * 0x100_0000_0000
                    + d[4] * 0x1_0000_0000 + u32v) as u64)))
        }),
{
    lemma_dtype_names_distinct();
    let b = seq![0x00u8, 0xD0] + m + seq![0x00u8, 0x00] + d;
    assert(b[0] == 0 && b[1] == 0xD0 && b[9] == 0 && b[10] == 0);
    assert(b.subrange(11, b.len() as int) =~= d);
}

/// Reads the value out of a batch-read response.
pub fn parse_mc_response(buf: &[u8], dtype: &str) -> (r: Result<Option<RawValue>, FrameFault>)
    ensures
        r == mc_value(buf@, dtype@),
{
    if buf.len() < 11 || be16_of(buf[1], buf[0]) != 0xD000 || be16_of(buf[10], buf[9]) != 0 {
        return Ok(None);
    }
    let d = &buf[11..buf.len()];
    if d.len() == 0 {
        return Ok(None);
    }
    if text_eq(dtype, "int16") && d.len() >= 2 {
        Ok(Some(RawValue::Signed(i16_of(d[1], d[0]) as i64)))
    } else if text_eq(dtype, "uint16") && d.len() >= 2 {
        Ok(Some(RawValue::Unsigned(be16_of(d[1], d[0]) as u64)))
    } else if text_eq(dtype, "int32") && d.len() >= 4 {
        Ok(Some(RawValue::Signed(i32_of(d[3], d[2], d[1], d[0]) as i64)))
    } else if text_eq(dtype, "uint32") && d.len() >= 4 {
        Ok(Some(RawValue::Unsigned(be32_of(d[3], d[2], d[1], d[0]) as u64)))
    } else if text_eq(dtype, "float32") && d.len() >= 4 {
        Ok(Some(RawValue::Float32(be32_of(d[3], d[2], d[1], d[0]))))
    } else if text_eq(dtype, "float64") && d.len() >= 8 {
        let rev = [d[7], d[6], d[5], d[4], d[3], d[2], d[1], d[0]];
        let bits = be64_of(&rev);
        proof {
            assert(rev@ =~= seq![d@[7], d@[6], d@[5], d@[4], d@[3], d@[2], d@[1], d@[0]]);
        }
        Ok(Some(RawValue::Float64(bits)))
    } else if d.len() < 2 {
        Err(FrameFault)
    } else if text_eq(dtype, "bool") {
        Ok(Some(RawValue::Flag(be16_of(d[1], d[0]) % 2 == 1)))
    } else {
        Ok(Some(RawValue::Unsigned(be16_of(d[1], d[0]) as u64)))
    }
}

} // verus!

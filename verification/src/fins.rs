use vstd::prelude::*;
use crate::bytes::{lemma_dtype_names_distinct, FrameFault, RawValue, be16, be16_of, be32, be32_of, be64, be64_of, i16_of, i32_of, signed16, signed32, u16_be, u32_be, push_u16_be, push_u32_be};
use crate::text::{text_eq, to_uppercase, uppercase_of};

verus! {

/// Unit struct naming the OMRON FINS/TCP driver.
#[derive(Debug, Clone, Copy, PartialEq, Eq, Structural)]
pub struct FinsTcpDriver;

impl FinsTcpDriver {
    /// The driver.
    pub fn new() -> (r: Self)
        ensures
            r == FinsTcpDriver,
    {
        FinsTcpDriver
    }

    /// The protocol's name as the logs show it.
    pub fn protocol_name(&self) -> (r: &'static str)
        ensures
            r@ == "FINS TCP"@,
    {
        "FINS TCP"
    }
}

/// The memory area code for an upper-cased area name: DM 0x82, CIO or IO
/// 0xB0, WR 0xB1, HR 0xB2, AR 0xB3, anything else DM.
pub open spec fn fins_area_of(upper: Seq<char>) -> u8 {
    if upper == "DM"@ {
        0x82
    } else if upper == "CIO"@ || upper == "IO"@ {
        0xB0
    } else if upper == "WR"@ {
        0xB1
    } else if upper == "HR"@ {
        0xB2
    } else if upper == "AR"@ {
        0xB3
    } else {
        0x82
    }
}

/// The area code of an upper-cased area name.
pub fn fins_area_code(upper: &str) -> (r: u8)
    ensures
        r == fins_area_of(upper@),
{
    if text_eq(upper, "DM") {
        0x82
    } else if text_eq(upper, "CIO") || text_eq(upper, "IO") {
        0xB0
    } else if text_eq(upper, "WR") {
        0xB1
    } else if text_eq(upper, "HR") {
        0xB2
    } else if text_eq(upper, "AR") {
        0xB3
    } else {
        0x82
    }
}

/// Memory area and word address of a point, from its function code (an
/// area name in any case) and register address.
pub fn parse_fins_area(func_code: &str, register_addr: u16) -> (r: (u8, u16))
    ensures
        r == (fins_area_of(uppercase_of(func_code@)), register_addr),
{
    let upper = to_uppercase(func_code);
    (fins_area_code(upper.as_str()), register_addr)
}

/// A Memory Area Read command: header (ICF 0x80, GCT 2), destination and
/// source network/node/unit, SID 0, command 01 01, area, word address,
/// bit 0, item count.
pub open spec fn fins_memory_read(sna: u8, sa1: u8, sa2: u8, dna: u8, da1: u8, da2: u8, area: u8, addr: u16, count: u16) -> Seq<u8> {
    seq![0x80u8, 0x00, 0x02, dna, da1, da2, sna, sa1, sa2, 0x00, 0x01, 0x01, area]
        + u16_be(addr as int) + seq![0x00u8] + u16_be(count as int)
}

/// A Memory Area Read command is 18 bytes: the command code 0x0101 at
/// bytes 10-11, the area at byte 12, the start word big-endian at bytes
/// 13-14, bit 0 at byte 15, and the word count big-endian at bytes 16-17;
/// the destination and source node addresses sit at bytes 3-5 and 6-8.
pub proof fn law_memory_read_layout(sna: u8, sa1: u8, sa2: u8, dna: u8, da1: u8, da2: u8, area: u8, addr: u16, count: u16)
    ensures
        ({
            let c = fins_memory_read(sna, sa1, sa2, dna, da1, da2, area, addr, count);
            &&& c.len() == 18
            &&& c[10] == 0x01 && c[11] == 0x01
            &&& c[12] == area
            &&& c[13] * 256 + c[14] == addr
            &&& c[15] == 0
            &&& c[16] * 256 + c[17] == count
            &&& c[3] == dna && c[4] == da1 && c[5] == da2
            &&& c[6] == sna && c[7] == sa1 && c[8] == sa2
        }),
{
}

/// Builds a Memory Area Read command between the given source and destination addresses.
pub fn build_fins_memory_read(sna: u8, sa1: u8, sa2: u8, dna: u8, da1: u8, da2: u8, area: u8, addr: u16, count: u16) -> (r: Vec<u8>)
    ensures
        r@ == fins_memory_read(sna, sa1, sa2, dna, da1, da2, area, addr, count),
{
    let mut c: Vec<u8> = Vec::new();
    c.push(0x80);
    c.push(0x00);
    c.push(0x02);
    c.push(dna);
    c.push(da1);
    c.push(da2);
    c.push(sna);
    c.push(sa1);
    c.push(sa2);
    c.push(0x00);
    c.push(0x01);
    c.push(0x01);
    c.push(area);
    push_u16_be(&mut c, addr);
    c.push(0x00);
    push_u16_be(&mut c, count);
    assert(c@ =~= fins_memory_read(sna, sa1, sa2, dna, da1, da2, area, addr, count));
    c
}

/// A command framed for FINS/TCP: `FINS`, the command length (big-endian,
/// kept to 32 bits), command code 2 with error code 0, then the command.
pub open spec fn fins_tcp_frame_of(cmd: Seq<u8>) -> Seq<u8> {
    seq![0x46u8, 0x49, 0x4E, 0x53] + u32_be((cmd.len() % 0x1_0000_0000) as int) + seq![0x00u8, 0x00, 0x00, 0x02] + cmd
}

/// Wraps a command in a FINS/TCP header.
pub fn fins_tcp_frame(cmd: &[u8]) -> (r: Vec<u8>)
    ensures
        r@ == fins_tcp_frame_of(cmd@),
{
    let mut f: Vec<u8> = Vec::new();
    f.push(0x46);
    f.push(0x49);
    f.push(0x4E);
    f.push(0x53);
    push_u32_be(&mut f, (cmd.len() as u64 % 0x1_0000_0000) as u32);
    f.push(0x00);
    f.push(0x00);
    f.push(0x00);
    f.push(0x02);
    f.extend_from_slice(cmd);
    assert(f@ =~= fins_tcp_frame_of(cmd@));
    f
}

/// The read command for one point of the device at node `dest_node`: from
/// node 1 of network 0 to unit 0, one word.
pub fn fins_point_command(dest_node: u8, func_code: &str, register_addr: u16) -> (r: Vec<u8>)
    ensures
        r@ == fins_tcp_frame_of(fins_memory_read(0, 1, 0, 0, dest_node, 0, fins_area_of(uppercase_of(func_code@)), register_addr, 1)),
{
    let (area, addr) = parse_fins_area(func_code, register_addr);
    let cmd = build_fins_memory_read(0, 1, 0, 0, dest_node, 0, area, addr, 1);
    fins_tcp_frame(cmd.as_slice())
}

/// The value of a Memory Area Read response: `FINS` header, then the reply
/// command whose end code (bytes 12-13) must be zero, then the data, read
/// big-endian as the data type says (`float64` from eight bytes); a type whose size the data does not
/// reach, or an unknown type, gives the first word with its low byte
/// capped at one less than the data length (as a byte).
pub open spec fn fins_value(buf: Seq<u8>, dtype: Seq<char>) -> Result<Option<RawValue>, FrameFault> {
    if buf.len() < 16 || buf.subrange(0, 4) != seq![0x46u8, 0x49, 0x4E, 0x53] {
        Ok(None)
    } else {
        let cmd = buf.subrange(12, buf.len() as int);
        if cmd.len() < 14 || be16(cmd[12], cmd[13]) != 0 {
            Ok(None)
        } else {
            let d = cmd.subrange(14, cmd.len() as int);
            if d.len() < 2 {
                Ok(None)
            } else if dtype == "int16"@ {
                Ok(Some(RawValue::Signed(signed16(be16(d[0], d[1])) as i64)))
            } else if dtype == "uint16"@ {
                Ok(Some(RawValue::Unsigned(be16(d[0], d[1]) as u64)))
            } else if dtype == "int32"@ && d.len() >= 4 {
                Ok(Some(RawValue::Signed(signed32(be32(d[0], d[1], d[2], d[3])) as i64)))
            } else if dtype == "uint32"@ && d.len() >= 4 {
                Ok(Some(RawValue::Unsigned(be32(d[0], d[1], d[2], d[3]) as u64)))
            } else if dtype == "float32"@ && d.len() >= 4 {
                Ok(Some(RawValue::Float32(be32(d[0], d[1], d[2], d[3]) as u32)))
            } else if dtype == "float64"@ && d.len() >= 8 {
                Ok(Some(RawValue::Float64(be64(d) as u64)))
            } else if dtype == "bool"@ {
                Ok(Some(RawValue::Flag(d[0] != 0)))
            } else if d.len() % 256 == 0 {
                Err(FrameFault)
            } else {
                let cap = (d.len() % 256 - 1) as u8;
                let low = if d[1] < cap { d[1] } else { cap };
                Ok(Some(RawValue::Unsigned(be16(d[0], low) as u64)))
            }
        }
    }
}

/// Reads the value out of a Memory Area Read response.
pub fn parse_fins_response(buf: &[u8], dtype: &str) -> (r: Result<Option<RawValue>, FrameFault>)
    ensures
        r == fins_value(buf@, dtype@),
{
    if buf.len() < 16 {
        return Ok(None);
    }
    if !(buf[0] == 0x46 && buf[1] == 0x49 && buf[2] == 0x4E && buf[3] == 0x53) {
        assert(buf@.subrange(0, 4) != seq![0x46u8, 0x49, 0x4E, 0x53]) by {
            if buf@.subrange(0, 4) == seq![0x46u8, 0x49, 0x4E, 0x53] {
                assert(buf@.subrange(0, 4)[0] == buf@[0]);
                assert(buf@.subrange(0, 4)[1] == buf@[1]);
                assert(buf@.subrange(0, 4)[2] == buf@[2]);
                assert(buf@.subrange(0, 4)[3] == buf@[3]);
            }
        }
        return Ok(None);
    }
    assert(buf@.subrange(0, 4) =~= seq![0x46u8, 0x49, 0x4E, 0x53]);
    let cmd = &buf[12..buf.len()];
    if cmd.len() < 14 || be16_of(cmd[12], cmd[13]) != 0 {
        return Ok(None);
    }
    let d = &cmd[14..cmd.len()];
    if d.len() < 2 {
        return Ok(None);
    }
    if text_eq(dtype, "int16") {
        Ok(Some(RawValue::Signed(i16_of(d[0], d[1]) as i64)))
    } else if text_eq(dtype, "uint16") {
        Ok(Some(RawValue::Unsigned(be16_of(d[0], d[1]) as u64)))
    } else if text_eq(dtype, "int32") && d.len() >= 4 {
        Ok(Some(RawValue::Signed(i32_of(d[0], d[1], d[2], d[3]) as i64)))
    } else if text_eq(dtype, "uint32") && d.len() >= 4 {
        Ok(Some(RawValue::Unsigned(be32_of(d[0], d[1], d[2], d[3]) as u64)))
    } else if text_eq(dtype, "float32") && d.len() >= 4 {
        Ok(Some(RawValue::Float32(be32_of(d[0], d[1], d[2], d[3]))))
    } else if text_eq(dtype, "float64") && d.len() >= 8 {
        Ok(Some(RawValue::Float64(be64_of(d))))
    } else if text_eq(dtype, "bool") {
        Ok(Some(RawValue::Flag(d[0] != 0)))
    } else if d.len() % 256 == 0 {
        Err(FrameFault)
    } else {
        let cap = (d.len() % 256 - 1) as u8;
        let low = if d[1] < cap {
            d[1]
        } else {
            cap
        };
        Ok(Some(RawValue::Unsigned(be16_of(d[0], low) as u64)))
    }
}

/// A Memory Area Read response: the `FINS` magic, the rest of the FINS/TCP
/// header `h` (8 bytes), the reply command `c` (12 bytes), end code 0, then
/// the data `d`.
pub open spec fn fins_read_reply(h: Seq<u8>, c: Seq<u8>, d: Seq<u8>) -> Seq<u8> {
    seq![0x46u8, 0x49, 0x4E, 0x53] + h + c + seq![0x00u8, 0x00] + d
}

/// The data of a successful read decodes big-endian: `int16` and `int32` as
/// two's-complement numbers (so within their signed ranges), `uint16` and
/// `uint32` as plain numbers, `float32` and `float64` as the IEEE-754
/// patterns of four and eight bytes, `bool` as on exactly when the first
/// byte is non-zero.
pub proof fn law_fins_data_types(h: Seq<u8>, c: Seq<u8>, d: Seq<u8>)
    requires
        h.len() == 8,
        c.len() == 12,
        d.len() >= 4,
    ensures
        ({
            let b = fins_read_reply(h, c, d);
            let u16v = d[0] * 256 + d[1];
            let u32v = d[0] * 0x100_0000 + d[1] * 0x1_0000 + d[2] * 0x100 + d[3];
            &&& fins_value(b, "int16"@) == Ok::<Option<RawValue>, FrameFault>(Some(RawValue::Signed(
                (if d[0] >= 0x80 { u16v - 0x1_0000 } else { u16v }) as i64)))
            &&& fins_value(b, "uint16"@) == Ok::<Option<RawValue>, FrameFault>(Some(RawValue::Unsigned(u16v as u64)))
            &&& fins_value(b, "int32"@) == Ok::<Option<RawValue>, FrameFault>(Some(RawValue::Signed(
                (if d[0] >= 0x80 { u32v - 0x1_0000_0000 } else { u32v }) as i64)))
            &&& fins_value(b, "uint32"@) == Ok::<Option<RawValue>, FrameFault>(Some(RawValue::Unsigned(u32v as u64)))
            &&& fins_value(b, "float32"@) == Ok::<Option<RawValue>, FrameFault>(Some(RawValue::Float32(u32v as u32)))
            &&& fins_value(b, "bool"@) == Ok::<Option<RawValue>, FrameFault>(Some(RawValue::Flag(d[0] != 0)))
            &&& d.len() >= 8 ==> fins_value(b, "float64"@) == Ok::<Option<RawValue>, FrameFault>(Some(RawValue::Float64(
                (u32v * 0x1_0000_0000 + d[4] * 0x100_0000 + d[5] * 0x1_0000 + d[6] * 0x100 + d[7]) as u64)))
            &&& -0x8000_0000 <= (if d[0] >= 0x80 { u32v - 0x1_0000_0000 } else { u32v }) < 0x8000_0000
        }),
{
    lemma_dtype_names_distinct();
    let b = fins_read_reply(h, c, d);
    assert(b.subrange(0, 4) =~= seq![0x46u8, 0x49, 0x4E, 0x53]);
    let cmd = b.subrange(12, b.len() as int);
    assert(cmd[12] == 0 && cmd[13] == 0);
    assert(cmd.subrange(14, cmd.len() as int) =~= d);
}

} // verus!

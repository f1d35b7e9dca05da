use vstd::prelude::*;
use crate::bytes::{lemma_dtype_names_distinct, RawValue, be16, be16_of, be32, be32_of, be64, be64_of, i16_of, i32_of, signed16, signed32, u16_be, fold_be, push_u16_be};
use crate::text::text_eq;

verus! {

/// Unit struct naming the Siemens S7 driver.
#[derive(Debug, Clone, Copy, PartialEq, Eq, Structural)]
pub struct S7CommDriver;

impl S7CommDriver {
    /// The driver.
    pub fn new() -> (r: Self)
        ensures
            r == S7CommDriver,
    {
        S7CommDriver
    }

    /// The protocol's name as the logs show it.
    pub fn protocol_name(&self) -> (r: &'static str)
        ensures
            r@ == "S7 Communication"@,
    {
        "S7 Communication"
    }
}

/// TPKT header with the given total length, ISO data header, then
/// `payload`.
pub open spec fn s7_header_of(tpkt_len: u16, payload: Seq<u8>) -> Seq<u8> {
    seq![0x03u8, 0x00] + u16_be(tpkt_len as int) + seq![0x02u8, 0xF0, 0x80] + payload
}

/// A TPKT and COTP data header followed by `payload`.
pub fn s7_header(tpkt_len: u16, payload: &[u8]) -> (r: Vec<u8>)
    ensures
        r@ == s7_header_of(tpkt_len, payload@),
{
    let mut h: Vec<u8> = Vec::new();
    h.push(0x03);
    h.push(0x00);
    push_u16_be(&mut h, tpkt_len);
    h.push(0x02);
    h.push(0xF0);
    h.push(0x80);
    h.extend_from_slice(payload);
    assert(h@ =~= s7_header_of(tpkt_len, payload@));
    h
}

/// The COTP connection request as this collector sends it.
pub open spec fn s7_cotp_cr() -> Seq<u8> {
    s7_header_of(13, seq![0xE0u8]) + seq![0x00u8, 0x00, 0x00, 0x08, 0x00, 0x00]
        + seq![0x32u8, 0x01, 0x00, 0x00, 0x00, 0x08, 0x00, 0x08, 0x00]
}

/// Builds the COTP connection request.
pub fn s7_build_cotp_cr() -> (r: Vec<u8>)
    ensures
        r@ == s7_cotp_cr(),
{
    let cr: [u8; 9] = [0x32, 0x01, 0x00, 0x00, 0x00, 0x08, 0x00, 0x08, 0x00];
    let tpkt_len = (4 + 9) as u16;
    let mut f = s7_header(tpkt_len, &[0xE0]);
    f.push(0x00);
    f.push(0x00);
    f.push(0x00);
    f.push(0x08);
    f.push(0x00);
    f.push(0x00);
    f.extend_from_slice(&cr);
    assert(f@ =~= s7_cotp_cr());
    f
}

/// The Setup Communication request as this collector sends it.
pub open spec fn s7_setup_comm() -> Seq<u8> {
    s7_header_of(19, seq![0xF0u8, 0x00, 0x00]) + seq![0x00u8, 0x01, 0x00, 0x1C, 0x00, 0x00]
        + seq![0x32u8, 0x01, 0x00, 0x00, 0x00, 0x08, 0x00, 0x08, 0x00, 0x00]
}

/// Builds the Setup Communication request.
pub fn s7_build_setup_comm() -> (r: Vec<u8>)
    ensures
        r@ == s7_setup_comm(),
{
    let payload: [u8; 10] = [0x32, 0x01, 0x00, 0x00, 0x00, 0x08, 0x00, 0x08, 0x00, 0x00];
    let tpkt_len = (4 + 1 + 2 + 2 + 10) as u16;
    let mut f = s7_header(tpkt_len, &[0xF0, 0x00, 0x00]);
    f.push(0x00);
    f.push(0x01);
    f.push(0x00);
    f.push(0x1C);
    f.push(0x00);
    f.push(0x00);
    f.extend_from_slice(&payload);
    assert(f@ =~= s7_setup_comm());
    f
}

/// A Read Var request for one item: `byte_len` bytes of area `area`
/// (data block `db_num`) from byte `byte_offset`, whose bit address
/// (`8 * byte_offset`) is sent in three big-endian bytes.
pub open spec fn s7_read_var(area: u8, db_num: u16, byte_offset: u16, byte_len: u16) -> Seq<u8> {
    let bit = byte_offset * 8;
    s7_header_of(21, seq![0xF0u8, 0x00, 0x00]) + seq![0x00u8, 0x01, 0x00, 0x00, 0x04, 0x01]
        + seq![0x12u8, 0x0A, 0x10, 0x02] + u16_be(byte_len as int) + u16_be(db_num as int)
        + seq![area, ((bit / 65536) % 256) as u8, ((bit / 256) % 256) as u8, (bit % 256) as u8]
}

/// Builds a Read Var request for `byte_len` bytes at `byte_offset` of an area.
pub fn s7_build_read_var(area: u8, db_num: u16, byte_offset: u16, byte_len: u16) -> (r: Vec<u8>)
    ensures
        r@ == s7_read_var(area, db_num, byte_offset, byte_len),
{
    let mut item: Vec<u8> = Vec::new();
    item.push(0x12);
    item.push(0x0A);
    item.push(0x10);
    item.push(0x02);
    push_u16_be(&mut item, byte_len);
    push_u16_be(&mut item, db_num);
    item.push(area);
    let bit_addr = (byte_offset as u32) * 8;
    item.push(((bit_addr / 65536) % 256) as u8);
    item.push(((bit_addr / 256) % 256) as u8);
    item.push((bit_addr % 256) as u8);
    let s7_payload_len = 2 + item.len();
    let tpkt_len = (4 + 3 + s7_payload_len) as u16;
    let mut f = s7_header(tpkt_len, &[0xF0, 0x00, 0x00]);
    f.push(0x00);
    f.push(0x01);
    f.push(0x00);
    f.push(0x00);
    f.push(0x04);
    f.push(0x01);
    f.extend_from_slice(item.as_slice());
    assert(f@ =~= s7_read_var(area, db_num, byte_offset, byte_len));
    f
}

/// The memory area of a point's function code: DB 0x84, M 0x83, I 0x81,
/// Q 0x82 (each in upper or lower case), anything else DB.
pub open spec fn s7_area_of(func_code: Seq<char>) -> u8 {
    if func_code == "DB"@ || func_code == "db"@ {
        0x84
    } else if func_code == "M"@ || func_code == "m"@ {
        0x83
    } else if func_code == "I"@ || func_code == "i"@ {
        0x81
    } else if func_code == "Q"@ || func_code == "q"@ {
        0x82
    } else {
        0x84
    }
}

/// The area code of a function code.
pub fn s7_area(func_code: &str) -> (r: u8)
    ensures
        r == s7_area_of(func_code@),
{
    if text_eq(func_code, "DB") || text_eq(func_code, "db") {
        0x84
    } else if text_eq(func_code, "M") || text_eq(func_code, "m") {
        0x83
    } else if text_eq(func_code, "I") || text_eq(func_code, "i") {
        0x81
    } else if text_eq(func_code, "Q") || text_eq(func_code, "q") {
        0x82
    } else {
        0x84
    }
}

/// The read request for one point: four bytes from the point's register
/// address in its area. The data block number is the address's bits above
/// the sixteenth, which a 16-bit address does not have, so it is 0.
pub fn s7_point_request(func_code: &str, register_address: u16) -> (r: Vec<u8>)
    ensures
        r@ == s7_read_var(s7_area_of(func_code@), 0, register_address, 4),
{
    let area = s7_area(func_code);
    let db_num: u16 = if area == 0x84 {
        ((register_address as u32) / 65536) as u16
    } else {
        0
    };
    s7_build_read_var(area, db_num, register_address, 4)
}

/// A Read Var request asks for `byte_len` bytes of data block `db_num` in
/// area `area`, starting at byte `byte_offset`: the request is 28 bytes;
/// bytes 20-21 are the length and bytes 22-23 the block number, both
/// big-endian; byte 24 is the area; and the last three bytes are the
/// big-endian bit address, eight times the byte offset.
pub proof fn law_read_var_addresses(area: u8, db_num: u16, byte_offset: u16, byte_len: u16)
    ensures
        ({
            let r = s7_read_var(area, db_num, byte_offset, byte_len);
            &&& r.len() == 28
            &&& r[20] * 256 + r[21] == byte_len
            &&& r[22] * 256 + r[23] == db_num
            &&& r[24] == area
            &&& r[25] * 65536 + r[26] * 256 + r[27] == 8 * byte_offset
        }),
{
    let r = s7_read_var(area, db_num, byte_offset, byte_len);
    let bit = byte_offset * 8;
    assert(r.len() == 28);
    assert(r[25] == ((bit / 65536) % 256) as u8 && r[26] == ((bit / 256) % 256) as u8 && r[27] == (bit % 256) as u8);
    assert(r[20] == u16_be(byte_len as int)[0] && r[21] == u16_be(byte_len as int)[1]);
    assert(r[22] == u16_be(db_num as int)[0] && r[23] == u16_be(db_num as int)[1]);
    assert(bit < 16777216);
    assert((bit / 65536) % 256 == bit / 65536);
    assert(bit / 65536 * 65536 + (bit / 256) % 256 * 256 + bit % 256 == bit);
}

/// The request for a point reads four bytes at its register address, as a
/// byte offset, in the area of its function code.
pub proof fn law_point_request_reads_register(func_code: Seq<char>, register_address: u16)
    ensures
        ({
            let r = s7_read_var(s7_area_of(func_code), 0, register_address, 4);
            &&& r[20] * 256 + r[21] == 4
            &&& r[24] == s7_area_of(func_code)
            &&& r[25] * 65536 + r[26] * 256 + r[27] == 8 * register_address
        }),
{
    law_read_var_addresses(s7_area_of(func_code), 0, register_address, 4);
}

/// The peer accepted the COTP connection: a reply of at least four bytes
/// whose second byte is 0xD0.
pub fn s7_connection_accepted(reply: &[u8]) -> (r: bool)
    ensures
        r == (reply@.len() >= 4 && reply@[1] == 0xD0),
{
    reply.len() >= 4 && reply[1] == 0xD0
}

/// The value of a Read Var response: return code 0xFF at byte 17, data
/// length at byte 25, data from byte 26, read big-endian as the data type
/// says; a type whose size the data does not reach, or an unknown type,
/// gives the first (up to eight, as many as the data length says) bytes as
/// one big-endian number.
pub open spec fn s7_value(buf: Seq<u8>, dtype: Seq<char>) -> Option<RawValue> {
    if buf.len() < 27 || buf[17] != 0xFF {
        None
    } else {
        let n = buf[25] as int;
        let d = buf.subrange(26, buf.len() as int);
        if d.len() < (if n < 4 { n } else { 4 }) {
            None
        } else if dtype == "float32"@ && d.len() >= 4 {
            Some(RawValue::Float32(be32(d[0], d[1], d[2], d[3]) as u32))
        } else if dtype == "int16"@ && d.len() >= 2 {
            Some(RawValue::Signed(signed16(be16(d[0], d[1])) as i64))
        } else if dtype == "uint16"@ && d.len() >= 2 {
            Some(RawValue::Unsigned(be16(d[0], d[1]) as u64))
        } else if dtype == "int32"@ && d.len() >= 4 {
            Some(RawValue::Signed(signed32(be32(d[0], d[1], d[2], d[3])) as i64))
        } else if dtype == "uint32"@ && d.len() >= 4 {
            Some(RawValue::Unsigned(be32(d[0], d[1], d[2], d[3]) as u64))
        } else if dtype == "bool"@ {
            Some(RawValue::Flag(d[0] != 0))
        } else if dtype == "float64"@ && d.len() >= 8 {
            Some(RawValue::Float64(be64(d) as u64))
        } else {
            let k = if n < 8 { n } else { 8 };
            let k2 = if k < d.len() { k } else { d.len() as int };
            Some(RawValue::Unsigned(fold_be(d.subrange(0, k2), 0x1_0000_0000_0000_0000) as u64))
        }
    }
}

/// The data of a successful Read Var response (return code 0xFF at byte
/// 17, data length `n` of at least four at byte 25, data `d` from byte 26)
/// decodes big-endian: `int16` and `int32` as two's-complement numbers,
/// `uint16` and `uint32` as plain numbers, `float32` and `float64` as the
/// IEEE-754 patterns of four and eight bytes, `bool` as on exactly when the
/// first byte is non-zero.
pub proof fn law_s7_data_types(p: Seq<u8>, m: Seq<u8>, n: u8, d: Seq<u8>)
    requires
        p.len() == 17,
        m.len() == 7,
        n >= 4,
        d.len() >= 4,
    ensures
        ({
            let b = p + seq![0xFFu8] + m + seq![n] + d;
            let u16v = d[0] * 256 + d[1];
            let u32v = d[0] * 0x100_0000 + d[1] * 0x1_0000 + d[2] * 0x100 + d[3];
            &&& s7_value(b, "int16"@) == Some(RawValue::Signed((if d[0] >= 0x80 { u16v - 0x1_0000 } else { u16v }) as i64))
            &&& s7_value(b, "uint16"@) == Some(RawValue::Unsigned(u16v as u64))
            &&& s7_value(b, "int32"@) == Some(RawValue::Signed(
                (if d[0] >= 0x80 { u32v - 0x1_0000_0000 } else { u32v }) as i64))
            &&& s7_value(b, "uint32"@) == Some(RawValue::Unsigned(u32v as u64))
            &&& s7_value(b, "float32"@) == Some(RawValue::Float32(u32v as u32))
            &&& s7_value(b, "bool"@) == Some(RawValue::Flag(d[0] != 0))
            &&& d.len() >= 8 ==> s7_value(b, "float64"@) == Some(RawValue::Float64(
                (u32v * 0x1_0000_0000 + d[4] * 0x100_0000 + d[5] * 0x1_0000 + d[6] * 0x100 + d[7]) as u64))
        }),
{
    lemma_dtype_names_distinct();
    let b = p + seq![0xFFu8] + m + seq![n] + d;
    assert(b[17] == 0xFF && b[25] == n);
    assert(b.subrange(26, b.len() as int) =~= d);
}

/// Reads the value out of a Read Var response.
pub fn parse_s7_read_response(buf: &[u8], dtype: &str) -> (r: Option<RawValue>)
    ensures
        r == s7_value(buf@, dtype@),
{
    if buf.len() < 27 || buf[17] != 0xFF {
        return None;
    }
    let n = buf[25] as usize;
    let d = &buf[26..buf.len()];
    let need = if n < 4 {
        n
    } else {
        4
    };
    if d.len() < need {
        return None;
    }
    if text_eq(dtype, "float32") && d.len() >= 4 {
        Some(RawValue::Float32(be32_of(d[0], d[1], d[2], d[3])))
    } else if text_eq(dtype, "int16") && d.len() >= 2 {
        Some(RawValue::Signed(i16_of(d[0], d[1]) as i64))
    } else if text_eq(dtype, "uint16") && d.len() >= 2 {
        Some(RawValue::Unsigned(be16_of(d[0], d[1]) as u64))
    } else if text_eq(dtype, "int32") && d.len() >= 4 {
        Some(RawValue::Signed(i32_of(d[0], d[1], d[2], d[3]) as i64))
    } else if text_eq(dtype, "uint32") && d.len() >= 4 {
        Some(RawValue::Unsigned(be32_of(d[0], d[1], d[2], d[3]) as u64))
    } else if text_eq(dtype, "bool") {
        Some(RawValue::Flag(d[0] != 0))
    } else if text_eq(dtype, "float64") && d.len() >= 8 {
        Some(RawValue::Float64(be64_of(d)))
    } else {
        let k = if n < 8 {
            n
        } else {
            8
        };
        let k2 = if k < d.len() {
            k
        } else {
            d.len()
        };
        let mut val: u64 = 0;
        let mut i: usize = 0;
        while i < k2
            invariant
                i <= k2,
                k2 <= d@.len(),
                val == fold_be(d@.subrange(0, i as int), 0x1_0000_0000_0000_0000),
            decreases k2 - i,
        {
            proof {
                let t = d@.subrange(0, i + 1);
                assert(t.drop_last() =~= d@.subrange(0, i as int));
            }
            val = (((val as u128) * 256 + (d[i] as u128)) % 0x1_0000_0000_0000_0000u128) as u64;
            i = i + 1;
        }
        Some(RawValue::Unsigned(val))
    }
}

} // verus!

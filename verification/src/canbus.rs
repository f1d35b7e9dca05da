use vstd::prelude::*;
use crate::bytes::{lemma_dtype_names_distinct, RawValue, be16, be16_of, be32, be32_of, be64, be64_of, i16_of, i32_of, signed16, signed32, fold_be};
use crate::dnp3::le32_at;
use crate::text::text_eq;

verus! {

/// Unit struct naming the SocketCAN driver.
#[derive(Debug, Clone, Copy, PartialEq, Eq, Structural)]
pub struct CanBusDriver;

impl CanBusDriver {
    /// The driver.
    pub fn new() -> (r: Self)
        ensures
            r == CanBusDriver,
    {
        CanBusDriver
    }

    /// The protocol's name as the logs show it.
    pub fn protocol_name(&self) -> (r: &'static str)
        ensures
            r@ == "CAN Bus"@,
    {
        "CAN Bus"
    }
}

/// The value of a CAN payload for a data type, read little-endian
/// (`float64` from eight bytes); a type
/// whose size the payload does not reach, or an unknown type, reads the
/// payload as one big-endian number (kept to 64 bits).
pub open spec fn can_value(data: Seq<u8>, dtype: Seq<char>) -> RawValue {
    if dtype == "float32"@ && data.len() >= 4 {
        RawValue::Float32(le32_at(data, 0))
    } else if dtype == "float64"@ && data.len() >= 8 {
        RawValue::Float64(be64(seq![data[7], data[6], data[5], data[4], data[3], data[2], data[1], data[0]]) as u64)
    } else if dtype == "uint16"@ && data.len() >= 2 {
        RawValue::Unsigned(be16(data[1], data[0]) as u64)
    } else if dtype == "int16"@ && data.len() >= 2 {
        RawValue::Signed(signed16(be16(data[1], data[0])) as i64)
    } else if dtype == "uint32"@ && data.len() >= 4 {
        RawValue::Unsigned(le32_at(data, 0) as u64)
    } else if dtype == "int32"@ && data.len() >= 4 {
        RawValue::Signed(signed32(le32_at(data, 0) as int) as i64)
    } else if dtype == "bool"@ {
        RawValue::Flag(data[0] != 0)
    } else {
        RawValue::Unsigned(fold_be(data, 0x1_0000_0000_0000_0000) as u64)
    }
}

/// A CAN payload of at least four bytes decodes little-endian: `int16` and
/// `int32` as two's-complement numbers, `uint16` and `uint32` as plain
/// numbers, `float32` and `float64` as the IEEE-754 patterns of four and
/// eight bytes, `bool` as on exactly when the first byte is non-zero.
pub proof fn law_can_data_types(d: Seq<u8>)
    requires
        d.len() >= 4,
    ensures
        ({
            let u16v = d[1] * 256 + d[0];
            let u32v = d[3] * 0x100_0000 + d[2] * 0x1_0000 + d[1] * 0x100 + d[0];
            &&& can_value(d, "int16"@) == RawValue::Signed((if d[1] >= 0x80 { u16v - 0x1_0000 } else { u16v }) as i64)
            &&& can_value(d, "uint16"@) == RawValue::Unsigned(u16v as u64)
            &&& can_value(d, "int32"@) == RawValue::Signed((if d[3] >= 0x80 { u32v - 0x1_0000_0000 } else { u32v }) as i64)
            &&& can_value(d, "uint32"@) == RawValue::Unsigned(u32v as u64)
            &&& can_value(d, "float32"@) == RawValue::Float32(u32v as u32)
            &&& can_value(d, "bool"@) == RawValue::Flag(d[0] != 0)
            &&& d.len() >= 8 ==> can_value(d, "float64"@) == RawValue::Float64(
                (d[7] * 0x100_0000_0000_0000 + d[6] * 0x1_0000_0000_0000 + d[5] * 0x100_0000_0000
                    + d[4] * 0x1_0000_0000 + u32v) as u64)
        }),
{
    lemma_dtype_names_distinct();
}

/// Decodes a CAN payload as the point's data type; an empty payload reads
/// as 0 for every type but `bool`, which needs a byte.
pub fn decode_can_data(data: &[u8], dtype: &str) -> (r: RawValue)
    requires
        data@.len() > 0 || dtype@ != "bool"@,
    ensures
        r == can_value(data@, dtype@),
{
    if text_eq(dtype, "float32") && data.len() >= 4 {
        RawValue::Float32(be32_of(data[3], data[2], data[1], data[0]))
    } else if text_eq(dtype, "float64") && data.len() >= 8 {
        let rev = [data[7], data[6], data[5], data[4], data[3], data[2], data[1], data[0]];
        let bits = be64_of(&rev);
        proof {
            assert(rev@ =~= seq![data@[7], data@[6], data@[5], data@[4], data@[3], data@[2], data@[1], data@[0]]);
        }
        RawValue::Float64(bits)
    } else if text_eq(dtype, "uint16") && data.len() >= 2 {
        RawValue::Unsigned(be16_of(data[1], data[0]) as u64)
    } else if text_eq(dtype, "int16") && data.len() >= 2 {
        RawValue::Signed(i16_of(data[1], data[0]) as i64)
    } else if text_eq(dtype, "uint32") && data.len() >= 4 {
        RawValue::Unsigned(be32_of(data[3], data[2], data[1], data[0]) as u64)
    } else if text_eq(dtype, "int32") && data.len() >= 4 {
        RawValue::Signed(i32_of(data[3], data[2], data[1], data[0]) as i64)
    } else if text_eq(dtype, "bool") {
        RawValue::Flag(data[0] != 0)
    } else {
        let mut val: u64 = 0;
        let mut i: usize = 0;
        while i < data.len()
            invariant
                i <= data@.len(),
                val == fold_be(data@.subrange(0, i as int), 0x1_0000_0000_0000_0000),
            decreases data@.len() - i,
        {
            proof {
                let t = data@.subrange(0, i + 1);
                assert(t.drop_last() =~= data@.subrange(0, i as int));
            }
            val = (((val as u128) * 256 + (data[i] as u128)) % 0x1_0000_0000_0000_0000u128) as u64;
            i = i + 1;
        }
        assert(data@.subrange(0, data@.len() as int) =~= data@);
        RawValue::Unsigned(val)
    }
}

/// The value a raw SocketCAN frame gives a point with CAN id `can_id`: the
/// frame's id (bytes 0-3, little-endian) must match, and its payload (from
/// byte 8, as long as the length byte 4 says, at most 8) must not be empty.
pub open spec fn can_frame_value(frame: Seq<u8>, can_id: u32, dtype: Seq<char>) -> Option<RawValue> {
    let dlc = if frame[4] < 8 { frame[4] as int } else { 8 };
    let data = frame.subrange(8, 8 + dlc);
    if le32_at(frame, 0) == can_id && data.len() > 0 {
        Some(can_value(data, dtype))
    } else {
        None
    }
}

/// Reads a point's value out of a 16-byte SocketCAN frame.
pub fn can_frame_reading(frame: &[u8], can_id: u32, dtype: &str) -> (r: Option<RawValue>)
    requires
        frame@.len() >= 16,
    ensures
        r == can_frame_value(frame@, can_id, dtype@),
{
    let id = be32_of(frame[3], frame[2], frame[1], frame[0]);
    let dlc: usize = if frame[4] < 8 {
        frame[4] as usize
    } else {
        8
    };
    let data = &frame[8..8 + dlc];
    if id == can_id && data.len() > 0 {
        Some(decode_can_data(data, dtype))
    } else {
        None
    }
}

} // verus!

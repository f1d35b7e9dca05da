use vstd::prelude::*;
use crate::bytes::{lemma_dtype_names_distinct, FrameFault, RawValue, be16, be16_of, signed16};
use crate::model::DataPoint;
use crate::text::text_eq;

verus! {

/// Unit struct naming the PROFIBUS DP driver.
#[derive(Debug, Clone, Copy, PartialEq, Eq, Structural)]
pub struct ProfibusDPDriver;

impl ProfibusDPDriver {
    /// The driver.
    pub fn new() -> (r: Self)
        ensures
            r == ProfibusDPDriver,
    {
        ProfibusDPDriver
    }

    /// The protocol's name as the logs show it.
    pub fn protocol_name(&self) -> (r: &'static str)
        ensures
            r@ == "PROFIBUS DP"@,
    {
        "PROFIBUS DP"
    }
}

/// The Data_Exchange request to `slave`: variable-length header, slave,
/// source 1, function 0x7C, frame check sequence (sum of all bytes so far),
/// end delimiter.
pub open spec fn profibus_dp_read(slave: u8) -> Seq<u8> {
    seq![0x68u8, 0x03, 0x03, 0x68, slave, 0x01, 0x7C,
        ((0x68 + 0x03 + 0x03 + 0x68 + slave + 0x01 + 0x7C) % 256) as u8, 0x16u8]
}

/// A Data_Exchange request is nine bytes: the variable-length header
/// 0x68 3 3 0x68, the slave address, source 1, function 0x7C, a check byte
/// equal to the sum of the seven bytes before it modulo 256, and 0x16.
pub proof fn law_read_request_layout(slave: u8)
    ensures
        ({
            let r = profibus_dp_read(slave);
            &&& r.len() == 9
            &&& r[0] == 0x68 && r[1] == 3 && r[2] == 3 && r[3] == 0x68
            &&& r[4] == slave && r[5] == 1 && r[6] == 0x7C
            &&& r[7] == (r[0] + r[1] + r[2] + r[3] + r[4] + r[5] + r[6]) % 256
            &&& r[8] == 0x16
        }),
{
}

/// Builds a Data_Exchange request to `slave`.
pub fn build_profibus_dp_read(slave: u8) -> (r: Vec<u8>)
    ensures
        r@ == profibus_dp_read(slave),
{
    let fcs = ((0x68u16 + 0x03 + 0x03 + 0x68 + slave as u16 + 0x01 + 0x7C) % 256) as u8;
    let mut f: Vec<u8> = Vec::new();
    f.push(0x68);
    f.push(0x03);
    f.push(0x03);
    f.push(0x68);
    f.push(slave);
    f.push(0x01);
    f.push(0x7C);
    f.push(fcs);
    f.push(0x16);
    assert(f@ =~= profibus_dp_read(slave));
    f
}

/// The input data of a response: when byte 6 is 0x08, the bytes from 7
/// on, as many as the length byte (byte 1) says less three. A length byte
/// below three has no such range.
pub open spec fn profibus_input(buf: Seq<u8>) -> Result<Seq<u8>, FrameFault> {
    if buf.len() < 9 || buf[0] != 0x68 {
        Ok(seq![])
    } else {
        let len = buf[1] as int;
        if buf.len() < 7 + len {
            Ok(seq![])
        } else if buf[6] != 0x08 {
            Ok(seq![])
        } else if len < 3 {
            Err(FrameFault)
        } else {
            Ok(buf.subrange(7, 7 + len - 3))
        }
    }
}

/// The input data of a response frame.
pub fn parse_profibus_response(buf: &[u8]) -> (r: Result<Vec<u8>, FrameFault>)
    ensures
        match r {
            Ok(v) => profibus_input(buf@) == Ok::<Seq<u8>, FrameFault>(v@),
            Err(e) => profibus_input(buf@) == Err::<Seq<u8>, FrameFault>(e),
        },
{
    if buf.len() < 9 || buf[0] != 0x68 {
        return Ok(Vec::new());
    }
    let len = buf[1] as usize;
    if buf.len() < 7 + len {
        return Ok(Vec::new());
    }
    if buf[6] != 0x08 {
        return Ok(Vec::new());
    }
    if len < 3 {
        return Err(FrameFault);
    }
    let mut out: Vec<u8> = Vec::new();
    let part = &buf[7..7 + len - 3];
    out.extend_from_slice(part);
    assert(out@ =~= buf@.subrange(7, 7 + len - 3));
    Ok(out)
}

/// The value of one input word for a data type: `bool` 1 or 0, `int16`
/// two's complement, anything else unsigned.
pub open spec fn profibus_word_value(raw: u16, dtype: Seq<char>) -> RawValue {
    if dtype == "bool"@ {
        RawValue::Flag(raw != 0)
    } else if dtype == "int16"@ {
        RawValue::Signed(signed16(raw as int) as i64)
    } else {
        RawValue::Unsigned(raw as u64)
    }
}

/// Decodes one input word as the point's data type.
pub fn decode_profibus_value(raw: u16, dtype: &str) -> (r: RawValue)
    ensures
        r == profibus_word_value(raw, dtype@),
{
    if text_eq(dtype, "bool") {
        RawValue::Flag(raw != 0)
    } else if text_eq(dtype, "int16") {
        let s: i16 = if raw >= 32768 {
            (raw as i32 - 65536) as i16
        } else {
            raw as i16
        };
        RawValue::Signed(s as i64)
    } else {
        RawValue::Unsigned(raw as u64)
    }
}

/// The value of point `i`: input bytes `2i` and `2i + 1`, little-endian,
/// where the input reaches that far.
pub open spec fn profibus_point(input: Seq<u8>, i: int, dtype: Seq<char>) -> Option<RawValue> {
    if 2 * i + 1 < input.len() {
        Some(profibus_word_value(be16(input[2 * i + 1], input[2 * i]) as u16, dtype))
    } else {
        None
    }
}

/// A data-exchange response (start byte 0x68, length byte `L` of at least
/// three, function byte 0x08 at byte 6, at least three bytes after the
/// data) carries `L - 3` input bytes from byte 7; point `i` reads input bytes `2i` (low) and `2i + 1` (high) where
/// they exist: `bool` on exactly when the word is non-zero, `int16` as its
/// two's-complement value, anything else as the plain word.
pub proof fn law_input_words(head: Seq<u8>, input: Seq<u8>, tail: Seq<u8>, i: int, dtype: Seq<char>)
    requires
        head.len() == 4,
        input.len() + 3 <= 255,
        tail.len() >= 3,
    ensures
        ({
            let b = seq![0x68u8, (input.len() + 3) as u8] + head + seq![0x08u8] + input + tail;
            &&& profibus_input(b) == Ok::<Seq<u8>, FrameFault>(input)
        }),
        0 <= i && 2 * i + 1 < input.len() ==> ({
            let w = input[2 * i + 1] * 256 + input[2 * i];
            &&& profibus_point(input, i, "bool"@) == Some(RawValue::Flag(w != 0))
            &&& profibus_point(input, i, "int16"@) == Some(RawValue::Signed((if w >= 0x8000 { w - 0x1_0000 } else { w }) as i64))
            &&& (dtype != "bool"@ && dtype != "int16"@) ==> profibus_point(input, i, dtype) == Some(RawValue::Unsigned(w as u64))
        }),
        0 <= i && 2 * i + 1 >= input.len() ==> profibus_point(input, i, dtype) is None,
{
    lemma_dtype_names_distinct();
    let b = seq![0x68u8, (input.len() + 3) as u8] + head + seq![0x08u8] + input + tail;
    assert(b[0] == 0x68 && b[1] == input.len() + 3 && b[6] == 0x08);
    assert(b.subrange(7, 7 + input.len() as int) =~= input);
}

/// The values of all points, in point order.
pub fn profibus_readings(input: &[u8], points: &Vec<DataPoint>) -> (r: Vec<Option<RawValue>>)
    requires
        2 * points@.len() + 2 <= usize::MAX,
    ensures
        r@.len() == points@.len(),
        forall|i: int| 0 <= i < points@.len() ==> #[trigger] r@[i] == profibus_point(input@, i, points@[i].data_type@),
{
    let mut out: Vec<Option<RawValue>> = Vec::new();
    let mut i: usize = 0;
    while i < points.len()
        invariant
            i <= points@.len(),
            2 * points@.len() + 2 <= usize::MAX,
            out@.len() == i,
            forall|j: int| 0 <= j < i ==> #[trigger] out@[j] == profibus_point(input@, j, points@[j].data_type@),
        decreases points@.len() - i,
    {
        let off = i * 2;
        if off + 1 < input.len() {
            let raw = be16_of(input[off + 1], input[off]);
            out.push(Some(decode_profibus_value(raw, points[i].data_type.as_str())));
        } else {
            out.push(None);
        }
        i = i + 1;
    }
    out
}

} // verus!

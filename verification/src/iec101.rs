use vstd::prelude::*;
use crate::bytes::{RawValue, i16_of};
use crate::iec104::{interrogation_asdu, le_i16_at};

verus! {

/// Unit struct naming the IEC 60870-5-101 driver.
#[derive(Debug, Clone, Copy, PartialEq, Eq, Structural)]
pub struct IEC101Driver;

impl IEC101Driver {
    /// The driver.
    pub fn new() -> (r: Self)
        ensures
            r == IEC101Driver,
    {
        IEC101Driver
    }

    /// The protocol's name as the logs show it.
    pub fn protocol_name(&self) -> (r: &'static str)
        ensures
            r@ == "IEC 60870-5-101"@,
    {
        "IEC 60870-5-101"
    }
}

/// Sum of bytes modulo 256.
pub open spec fn byte_sum(s: Seq<u8>) -> int
    decreases s.len(),
{
    if s.len() == 0 { 0 } else { (byte_sum(s.drop_last()) + s.last()) % 256 }
}

/// The ASDU of a request: type, one element, cause, common address and
/// information object address, laid out as in IEC 104.
pub open spec fn iec101_asdu(asdu_addr: u16, type_id: u8, cause: u8, ioa: u32) -> Seq<u8> {
    seq![type_id] + interrogation_asdu(cause, asdu_addr, ioa).subrange(1, 9)
}

/// The FT1.2 variable-length frame: start, length twice, start, control
/// byte 0x53, ASDU, checksum (length plus ASDU bytes), end byte.
pub open spec fn iec101_frame(asdu_addr: u16, type_id: u8, cause: u8, ioa: u32) -> Seq<u8> {
    let a = iec101_asdu(asdu_addr, type_id, cause, ioa);
    let len = a.len() as u8;
    seq![0x68u8, len, len, 0x68, 0x53] + a + seq![((len + byte_sum(a)) % 256) as u8, 0x16u8]
}

fn sum_bytes(s: &[u8]) -> (r: u8)
    ensures
        r == byte_sum(s@),
{
    let mut acc: u8 = 0;
    let mut i: usize = 0;
    while i < s.len()
        invariant
            i <= s@.len(),
            acc == byte_sum(s@.subrange(0, i as int)),
        decreases s@.len() - i,
    {
        proof {
            let t = s@.subrange(0, i + 1);
            assert(t.drop_last() =~= s@.subrange(0, i as int));
        }
        acc = ((acc as u16 + s[i] as u16) % 256) as u8;
        i = i + 1;
    }
    assert(s@.subrange(0, s@.len() as int) =~= s@);
    acc
}

/// Builds a variable-length request frame carrying one ASDU.
pub fn build_iec101_frame(asdu_addr: u16, type_id: u8, cause: u8, ioa: u32) -> (r: Vec<u8>)
    ensures
        r@ == iec101_frame(asdu_addr, type_id, cause, ioa),
{
    let mut a: Vec<u8> = Vec::new();
    a.push(type_id);
    a.push(0x01);
    a.push(cause);
    a.push(0x00);
    a.push((asdu_addr % 256) as u8);
    a.push((asdu_addr / 256) as u8);
    a.push((ioa % 256) as u8);
    a.push(((ioa / 256) % 256) as u8);
    a.push(((ioa / 65536) % 256) as u8);
    assert(a@ =~= iec101_asdu(asdu_addr, type_id, cause, ioa));
    let len = a.len() as u8;
    let cs = ((len as u16 + sum_bytes(a.as_slice()) as u16) % 256) as u8;
    let mut f: Vec<u8> = Vec::new();
    f.push(0x68);
    f.push(len);
    f.push(len);
    f.push(0x68);
    f.push(0x53);
    f.extend_from_slice(a.as_slice());
    f.push(cs);
    f.push(0x16);
    assert(f@ =~= iec101_frame(asdu_addr, type_id, cause, ioa));
    f
}

/// The value of a response frame: the ASDU starts at byte 4 and is as long
/// as byte 1 says; types 13 and 9 give the signed value at ASDU bytes 7-8,
/// type 1 bit 0 of ASDU byte 6.
pub open spec fn iec101_value(buf: Seq<u8>) -> Option<RawValue> {
    if buf.len() < 6 || buf[0] != 0x68 {
        None
    } else {
        let len = buf[1] as int;
        if buf.len() < len + 6 {
            None
        } else {
            let asdu = buf.subrange(4, 4 + len);
            if asdu.len() < 7 {
                None
            } else if asdu[0] == 13 || asdu[0] == 9 {
                if asdu.len() >= 9 { Some(RawValue::Signed(le_i16_at(asdu, 7))) } else { None }
            } else if asdu[0] == 1 {
                Some(RawValue::Flag(asdu[6] % 2 == 1))
            } else {
                None
            }
        }
    }
}

/// A response `68 L x y`, then `L` ASDU bytes, then at least two more (the
/// checksum and end byte), gives: for a measured value (type 13 or 9) the
/// signed 16-bit number at ASDU bytes 7-8, least significant first; for a
/// single point (type 1) whether bit 0 of ASDU byte 6 is set.
pub proof fn law_response_values(x: u8, y: u8, asdu: Seq<u8>, tail: Seq<u8>)
    requires
        9 <= asdu.len() <= 255,
        tail.len() >= 2,
    ensures
        ({
            let b = seq![0x68u8, asdu.len() as u8, x, y] + asdu + tail;
            let u = asdu[8] * 256 + asdu[7];
            let v = if asdu[8] >= 0x80 { u - 0x1_0000 } else { u };
            &&& (asdu[0] == 13 || asdu[0] == 9) ==> iec101_value(b) == Some(RawValue::Signed(v as i64))
            &&& asdu[0] == 1 ==> iec101_value(b) == Some(RawValue::Flag(asdu[6] % 2 == 1))
        }),
{
    let b = seq![0x68u8, asdu.len() as u8, x, y] + asdu + tail;
    assert(b[0] == 0x68 && b[1] == asdu.len());
    assert(b.subrange(4, 4 + asdu.len() as int) =~= asdu);
}

/// A request frame is the FT1.2 variable-length frame: start byte 0x68,
/// the ASDU length twice, 0x68 again, control byte 0x53, the nine ASDU bytes
/// (type, one element, cause, 0, the common address and the information
/// object address, least significant first), the checksum, end byte 0x16.
pub proof fn law_request_frame_layout(asdu_addr: u16, type_id: u8, cause: u8, ioa: u32)
    ensures
        ({
            let f = iec101_frame(asdu_addr, type_id, cause, ioa);
            &&& f.len() == 16
            &&& f[0] == 0x68 && f[1] == 9 && f[2] == 9 && f[3] == 0x68 && f[4] == 0x53
            &&& f[5] == type_id && f[6] == 1 && f[7] == cause && f[8] == 0
            &&& f[9] + f[10] * 256 == asdu_addr
            &&& f[11] + f[12] * 256 + f[13] * 65536 == ioa % 0x100_0000
            &&& f[14] == (9 + byte_sum(f.subrange(5, 14))) % 256
            &&& f[15] == 0x16
        }),
{
    let f = iec101_frame(asdu_addr, type_id, cause, ioa);
    let a = iec101_asdu(asdu_addr, type_id, cause, ioa);
    assert(a.len() == 9);
    assert(f.subrange(5, 14) =~= a);
    assert(ioa % 256 + ((ioa / 256) % 256) * 256 + ((ioa / 65536) % 256) * 65536 == ioa % 0x100_0000);
}

/// Reads the value out of a response frame.
pub fn parse_iec101_response(buf: &[u8]) -> (r: Option<RawValue>)
    ensures
        r == iec101_value(buf@),
{
    if buf.len() < 6 || buf[0] != 0x68 {
        return None;
    }
    let len = buf[1] as usize;
    if buf.len() < len + 6 {
        return None;
    }
    let asdu = &buf[4..4 + len];
    if asdu.len() < 7 {
        return None;
    }
    if asdu[0] == 13 || asdu[0] == 9 {
        if asdu.len() >= 9 {
            Some(RawValue::Signed(i16_of(asdu[8], asdu[7]) as i64))
        } else {
            None
        }
    } else if asdu[0] == 1 {
        Some(RawValue::Flag(asdu[6] % 2 == 1))
    } else {
        None
    }
}

} // verus!

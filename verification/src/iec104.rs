use vstd::prelude::*;
use crate::bytes::{FrameFault, RawValue, be16, i16_of, signed16};

verus! {

/// Unit struct naming the IEC 60870-5-104 driver.
#[derive(Debug, Clone, Copy, PartialEq, Eq, Structural)]
pub struct IEC104Driver;

impl IEC104Driver {
    /// The driver.
    pub fn new() -> (r: Self)
        ensures
            r == IEC104Driver,
    {
        IEC104Driver
    }

    /// The protocol's name as the logs show it.
    pub fn protocol_name(&self) -> (r: &'static str)
        ensures
            r@ == "IEC 60870-5-104"@,
    {
        "IEC 60870-5-104"
    }
}

/// The U-format frame with control byte `ctrl` (STARTDT 0x07, STOPDT
/// 0x13, TESTFR).
pub open spec fn iec104_u_frame_of(ctrl: u8) -> Seq<u8> {
    seq![0x68u8, 0x04, ctrl, 0x00, 0x00, 0x00]
}

/// A U-format frame is the six-byte APCI: start byte 0x68, the length of
/// what follows it (4), the control byte, then three zero bytes.
pub proof fn law_u_frame_layout(ctrl: u8)
    ensures
        ({
            let f = iec104_u_frame_of(ctrl);
            &&& f.len() == 6
            &&& f[0] == 0x68 && f[1] == f.len() - 2
            &&& f[2] == ctrl && f[3] == 0 && f[4] == 0 && f[5] == 0
        }),
{
}

/// A U-format frame with control byte `ctrl` (STARTDT, STOPDT, TESTFR).
pub fn iec104_u_frame(ctrl: u8) -> (r: Vec<u8>)
    ensures
        r@ == iec104_u_frame_of(ctrl),
{
    let mut f: Vec<u8> = Vec::new();
    f.push(0x68);
    f.push(0x04);
    f.push(ctrl);
    f.push(0x00);
    f.push(0x00);
    f.push(0x00);
    assert(f@ =~= iec104_u_frame_of(ctrl));
    f
}

/// The interrogation command ASDU (type 100, one element): cause of
/// transmission, common address (little-endian), information object address
/// (three bytes, little-endian).
pub open spec fn interrogation_asdu(cause: u8, asdu_addr: u16, ioa: u32) -> Seq<u8> {
    seq![100u8, 0x01, cause, 0x00, (asdu_addr % 256) as u8, (asdu_addr / 256) as u8,
        (ioa % 256) as u8, ((ioa / 256) % 256) as u8, ((ioa / 65536) % 256) as u8]
}

/// Builds an interrogation ASDU.
pub fn build_asdu_interrogation(cause: u8, asdu_addr: u16, ioa: u32) -> (r: Vec<u8>)
    ensures
        r@ == interrogation_asdu(cause, asdu_addr, ioa),
{
    let mut a: Vec<u8> = Vec::new();
    a.push(100);
    a.push(0x01);
    a.push(cause);
    a.push(0x00);
    a.push((asdu_addr % 256) as u8);
    a.push((asdu_addr / 256) as u8);
    a.push((ioa % 256) as u8);
    a.push(((ioa / 256) % 256) as u8);
    a.push(((ioa / 65536) % 256) as u8);
    assert(a@ =~= interrogation_asdu(cause, asdu_addr, ioa));
    a
}

/// The I-format APDU carrying an interrogation ASDU, with the low 14 bits
/// of the send and receive sequence numbers, seven per byte, the first byte
/// of each shifted left by one.
pub open spec fn iec104_i_frame(send_seq: u16, recv_seq: u16, cause: u8, asdu_addr: u16, ioa: u32) -> Seq<u8> {
    let asdu = interrogation_asdu(cause, asdu_addr, ioa);
    seq![0x68u8, (asdu.len() + 2) as u8,
        ((send_seq % 128) * 2) as u8, ((send_seq / 128) % 128) as u8,
        ((recv_seq % 128) * 2) as u8, ((recv_seq / 128) % 128) as u8] + asdu
}

/// Builds an I-format frame with the given sequence numbers around an interrogation ASDU.
pub fn build_iec104_i_frame(send_seq: u16, recv_seq: u16, cause: u8, asdu_addr: u16, ioa: u32) -> (r: Vec<u8>)
    ensures
        r@ == iec104_i_frame(send_seq, recv_seq, cause, asdu_addr, ioa),
{
    let asdu = build_asdu_interrogation(cause, asdu_addr, ioa);
    let apci_len = (asdu.len() + 2) as u8;
    let mut f: Vec<u8> = Vec::new();
    f.push(0x68);
    f.push(apci_len);
    f.push(((send_seq % 128) * 2) as u8);
    f.push(((send_seq / 128) % 128) as u8);
    f.push(((recv_seq % 128) * 2) as u8);
    f.push(((recv_seq / 128) % 128) as u8);
    f.extend_from_slice(asdu.as_slice());
    assert(f@ =~= iec104_i_frame(send_seq, recv_seq, cause, asdu_addr, ioa));
    f
}

/// Little-endian signed 16-bit value at `at`.
pub open spec fn le_i16_at(s: Seq<u8>, at: int) -> i64 {
    signed16(be16(s[at + 1], s[at])) as i64
}

/// The value of an I-format response: the ASDU runs from byte 6 to the end
/// of the APDU; type 13 (short measured value) and unknown types give the
/// signed value at bytes 7-8 of the ASDU, type 9 the same value normalized,
/// type 1 (single point) bit 0 of byte 6. A length below 4 makes the ASDU
/// range empty-backwards.
pub open spec fn iec104_value(buf: Seq<u8>) -> Result<Option<RawValue>, FrameFault> {
    if buf.len() < 6 || buf[0] != 0x68 {
        Ok(None)
    } else {
        let end = 2 + buf[1];
        if buf.len() < end {
            Ok(None)
        } else if end < 6 {
            Err(FrameFault)
        } else {
            let asdu = buf.subrange(6, end);
            if asdu.len() < 7 {
                Ok(None)
            } else if asdu[0] == 1 {
                Ok(Some(RawValue::Flag(asdu[6] % 2 == 1)))
            } else if asdu[0] == 9 {
                if asdu.len() >= 9 {
                    Ok(Some(RawValue::Normalized(le_i16_at(asdu, 7) as i16)))
                } else {
                    Ok(None)
                }
            } else if asdu.len() >= 10 {
                Ok(Some(RawValue::Signed(le_i16_at(asdu, 7))))
            } else {
                Ok(None)
            }
        }
    }
}

/// An I-format response `68 L c0 c1 c2 c3` followed by an ASDU of `L - 4`
/// bytes gives: for a short measured value (type 13) the signed 16-bit
/// number at ASDU bytes 7-8, least significant first; for a normalized value
/// (type 9) the same number as a normalized reading; for a single point
/// (type 1) whether bit 0 of ASDU byte 6 is set.
pub proof fn law_i_frame_values(ctrl: Seq<u8>, asdu: Seq<u8>)
    requires
        ctrl.len() == 4,
        10 <= asdu.len() <= 251,
    ensures
        ({
            let b = seq![0x68u8, (asdu.len() + 4) as u8] + ctrl + asdu;
            let u = asdu[8] * 256 + asdu[7];
            let v = if asdu[8] >= 0x80 { u - 0x1_0000 } else { u };
            &&& asdu[0] == 13 ==> iec104_value(b) == Ok::<Option<RawValue>, FrameFault>(Some(RawValue::Signed(v as i64)))
            &&& asdu[0] == 9 ==> iec104_value(b) == Ok::<Option<RawValue>, FrameFault>(Some(RawValue::Normalized(v as i16)))
            &&& asdu[0] == 1 ==> iec104_value(b) == Ok::<Option<RawValue>, FrameFault>(Some(RawValue::Flag(asdu[6] % 2 == 1)))
        }),
{
    let b = seq![0x68u8, (asdu.len() + 4) as u8] + ctrl + asdu;
    assert(b[0] == 0x68 && b[1] == asdu.len() + 4);
    assert(b.subrange(6, b.len() as int) =~= asdu);
}

/// Reads the measured value out of an I-format response.
pub fn parse_iec104_i_frame(buf: &[u8]) -> (r: Result<Option<RawValue>, FrameFault>)
    ensures
        r == iec104_value(buf@),
{
    if buf.len() < 6 || buf[0] != 0x68 {
        return Ok(None);
    }
    let end = 2 + buf[1] as usize;
    if buf.len() < end {
        return Ok(None);
    }
    if end < 6 {
        return Err(FrameFault);
    }
    let asdu = &buf[6..end];
    if asdu.len() < 7 {
        return Ok(None);
    }
    let type_id = asdu[0];
    if type_id == 1 {
        Ok(Some(RawValue::Flag(asdu[6] % 2 == 1)))
    } else if type_id == 9 {
        if asdu.len() >= 9 {
            Ok(Some(RawValue::Normalized(i16_of(asdu[8], asdu[7]))))
        } else {
            Ok(None)
        }
    } else if asdu.len() >= 10 {
        Ok(Some(RawValue::Signed(i16_of(asdu[8], asdu[7]) as i64)))
    } else {
        Ok(None)
    }
}


/// The control field of an I-format frame: bit 0 of its first byte is clear
/// (the I-format mark), and the control bytes give back the send and
/// receive sequence numbers modulo 2^14; the interrogation ASDU that follows
/// carries type 100, one element, the cause, the common address and the
/// information object address, least significant byte first.
pub proof fn law_i_frame_fields(send_seq: u16, recv_seq: u16, cause: u8, asdu_addr: u16, ioa: u32)
    ensures
        ({
            let f = iec104_i_frame(send_seq, recv_seq, cause, asdu_addr, ioa);
            &&& f.len() == 15
            &&& f[0] == 0x68
            &&& f[2] % 2 == 0
            &&& f[2] / 2 + 128 * f[3] == send_seq % 16384
            &&& f[4] / 2 + 128 * f[5] == recv_seq % 16384
            &&& f[6] == 100 && f[7] == 1 && f[8] == cause && f[9] == 0
            &&& f[10] + 256 * f[11] == asdu_addr
            &&& f[12] + 256 * f[13] + 65536 * f[14] == ioa % 0x100_0000
        }),
{
    let f = iec104_i_frame(send_seq, recv_seq, cause, asdu_addr, ioa);
    assert(ioa % 256 + ((ioa / 256) % 256) * 256 + ((ioa / 65536) % 256) * 65536 == ioa % 0x100_0000);
    assert(f[2] == (send_seq % 128) * 2);
    assert(f[3] == (send_seq / 128) % 128);
    assert(f[4] == (recv_seq % 128) * 2);
    assert(f[5] == (recv_seq / 128) % 128);
    assert(send_seq % 16384 == send_seq % 128 + 128 * ((send_seq / 128) % 128)) by {
        vstd::arithmetic::div_mod::lemma_mod_breakdown(send_seq as int, 128, 128);
    }
    assert(recv_seq % 16384 == recv_seq % 128 + 128 * ((recv_seq / 128) % 128)) by {
        vstd::arithmetic::div_mod::lemma_mod_breakdown(recv_seq as int, 128, 128);
    }
}

} // verus!

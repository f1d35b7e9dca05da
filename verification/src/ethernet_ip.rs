use vstd::prelude::*;
use crate::bytes::{lemma_u32_le_value, RawValue, be16, be32, be32_of, i16_of, i32_of, signed16, signed32, u16_le, u32_le, push_u16_le, push_u32_le};
use crate::dnp3::le32_at;

verus! {

/// Unit struct naming the EtherNet/IP (CIP) driver.
#[derive(Debug, Clone, Copy, PartialEq, Eq, Structural)]
pub struct EthernetIPDriver;

impl EthernetIPDriver {
    /// The driver.
    pub fn new() -> (r: Self)
        ensures
            r == EthernetIPDriver,
    {
        EthernetIPDriver
    }

    /// The protocol's name as the logs show it.
    pub fn protocol_name(&self) -> (r: &'static str)
        ensures
            r@ == "EtherNet/IP"@,
    {
        "EtherNet/IP"
    }
}

/// The 24-byte encapsulation header: command, payload length, session
/// handle (all little-endian), then sixteen zero bytes (status, sender
/// context, options).
pub open spec fn eip_header_of(command: u16, session: u32, payload_len: u16) -> Seq<u8> {
    u16_le(command as int) + u16_le(payload_len as int) + u32_le(session as int) + Seq::new(16, |i: int| 0u8)
}

/// The encapsulation header is 24 bytes: the command at bytes 0-1, the
/// payload length at bytes 2-3 and the session handle at bytes 4-7, all
/// least significant byte first, then sixteen zero bytes.
pub proof fn law_header_layout(command: u16, session: u32, payload_len: u16)
    ensures
        ({
            let h = eip_header_of(command, session, payload_len);
            &&& h.len() == 24
            &&& h[0] + 256 * h[1] == command
            &&& h[2] + 256 * h[3] == payload_len
            &&& h[4] + 0x100 * h[5] + 0x1_0000 * h[6] + 0x100_0000 * h[7] == session
            &&& forall|i: int| 8 <= i < 24 ==> #[trigger] h[i] == 0
        }),
{
    let h = eip_header_of(command, session, payload_len);
    assert(h.subrange(4, 8) =~= u32_le(session as int));
    assert(h[4] == u32_le(session as int)[0] && h[5] == u32_le(session as int)[1]
        && h[6] == u32_le(session as int)[2] && h[7] == u32_le(session as int)[3]);
    lemma_u32_le_value(session);
}

/// The 24-byte encapsulation header of a command.
pub fn eip_header(command: u16, session: u32, payload_len: u16) -> (r: Vec<u8>)
    ensures
        r@ == eip_header_of(command, session, payload_len),
{
    let mut h: Vec<u8> = Vec::new();
    push_u16_le(&mut h, command);
    push_u16_le(&mut h, payload_len);
    push_u32_le(&mut h, session);
    let mut i: usize = 0;
    while i < 16
        invariant
            i <= 16,
            h@ == u16_le(command as int) + u16_le(payload_len as int) + u32_le(session as int) + Seq::new(i as nat, |j: int| 0u8),
        decreases 16 - i,
    {
        h.push(0);
        i = i + 1;
        assert(h@ =~= u16_le(command as int) + u16_le(payload_len as int) + u32_le(session as int) + Seq::new(i as nat, |j: int| 0u8));
    }
    h
}

/// The RegisterSession request (command 0x65, protocol version 1).
pub open spec fn eip_register_session() -> Seq<u8> {
    eip_header_of(0x0065, 0, 4) + seq![0x01u8, 0x00, 0x00, 0x00]
}

/// Builds a RegisterSession request.
pub fn build_eip_register_session() -> (r: Vec<u8>)
    ensures
        r@ == eip_register_session(),
{
    let mut f = eip_header(0x0065, 0, 4);
    f.push(0x01);
    f.push(0x00);
    f.push(0x00);
    f.push(0x00);
    assert(f@ =~= eip_register_session());
    f
}

/// The session handle of a RegisterSession reply: bytes 4-7, little-endian.
pub fn parse_eip_session(buf: &[u8]) -> (r: Option<u32>)
    ensures
        r == (if buf@.len() < 8 { None } else { Some(le32_at(buf@, 4)) }),
{
    if buf.len() < 8 {
        None
    } else {
        Some(be32_of(buf[7], buf[6], buf[5], buf[4]))
    }
}

/// The CIP Forward Open request data as this collector sends it.
pub open spec fn forward_open_data() -> Seq<u8> {
    seq![0x54u8, 0x02, 0x20, 0x06, 0x24, 0x01, 0x0A, 0xF0, 0x00, 0x00, 0x00, 0x00, 0x00,
        0xA1, 0x00, 0x04, 0x00, 0x00, 0x00, 0xA2, 0x00, 0x04, 0x00, 0x00, 0x00,
        0x01, 0x00, 0x02, 0x00, 0x01, 0x00, 0x00, 0x00]
}

/// SendRRData (command 0x6F) carrying a Forward Open in an unconnected
/// data item.
pub open spec fn eip_forward_open(session: u32) -> Seq<u8> {
    eip_header_of(0x006F, session, 33) + seq![0x00u8, 0x00, 0x00, 0x00, 0x00, 0x00]
        + seq![0x02u8, 0x00, 0x00, 0x00, 0x00, 0x00, 0xB2, 0x00] + u16_le(33) + forward_open_data()
}

/// Builds a Forward Open request within `session`.
pub fn build_eip_forward_open(session: u32) -> (r: Vec<u8>)
    ensures
        r@ == eip_forward_open(session),
{
    let cip: [u8; 33] = [0x54, 0x02, 0x20, 0x06, 0x24, 0x01, 0x0A, 0xF0, 0x00, 0x00, 0x00, 0x00, 0x00,
        0xA1, 0x00, 0x04, 0x00, 0x00, 0x00, 0xA2, 0x00, 0x04, 0x00, 0x00, 0x00,
        0x01, 0x00, 0x02, 0x00, 0x01, 0x00, 0x00, 0x00];
    assert(cip@ =~= forward_open_data());
    let mut f = eip_header(0x006F, session, 33);
    f.push(0x00);
    f.push(0x00);
    f.push(0x00);
    f.push(0x00);
    f.push(0x00);
    f.push(0x00);
    f.push(0x02);
    f.push(0x00);
    f.push(0x00);
    f.push(0x00);
    f.push(0x00);
    f.push(0x00);
    f.push(0xB2);
    f.push(0x00);
    push_u16_le(&mut f, 33);
    f.extend_from_slice(&cip);
    assert(f@ =~= eip_forward_open(session));
    f
}

/// The connection id of a Forward Open reply: bytes 44-47, little-endian.
pub fn parse_cip_connection_id(buf: &[u8]) -> (r: Option<u32>)
    ensures
        r == (if buf@.len() < 48 { None } else { Some(le32_at(buf@, 44)) }),
{
    if buf.len() < 48 {
        None
    } else {
        Some(be32_of(buf[47], buf[46], buf[45], buf[44]))
    }
}

/// The Read Tag service request on connection `conn_id` for the symbol
/// `tag`, with the symbol length and request size kept to their low byte
/// and word.
pub open spec fn cip_read_tag_service(conn_id: u32, tag: Seq<u8>, count: u16) -> Seq<u8> {
    seq![0x4Cu8, (count % 256) as u8, (count / 256) as u8, 0x91] + u32_le(conn_id as int)
        + seq![0x00u8, (tag.len() % 256) as u8] + tag + seq![0x01u8, 0x00]
}

/// SendUnitData (command 0x70) carrying a Read Tag request in a connected
/// data item.
pub open spec fn cip_read_tag(session: u32, conn_id: u32, tag: Seq<u8>, count: u16) -> Seq<u8> {
    let cip = cip_read_tag_service(conn_id, tag, count);
    let len = (cip.len() % 65536) as u16;
    eip_header_of(0x0070, session, len) + seq![0x00u8, 0x00, 0x00, 0x00, 0x00, 0x00, 0x02, 0x00, 0xA1, 0x00]
        + u16_le(len as int) + cip
}

/// Builds a connected Read Tag request for the symbolic tag `tag`.
pub fn build_cip_read_tag(session: u32, conn_id: u32, tag: &[u8], count: u16) -> (r: Vec<u8>)
    requires
        tag@.len() + 12 <= usize::MAX,
    ensures
        r@ == cip_read_tag(session, conn_id, tag@, count),
{
    let mut cip: Vec<u8> = Vec::new();
    cip.push(0x4C);
    cip.push((count % 256) as u8);
    cip.push((count / 256) as u8);
    cip.push(0x91);
    push_u32_le(&mut cip, conn_id);
    cip.push(0x00);
    cip.push((tag.len() % 256) as u8);
    cip.extend_from_slice(tag);
    cip.push(0x01);
    cip.push(0x00);
    assert(cip@ =~= cip_read_tag_service(conn_id, tag@, count));
    let len = (cip.len() % 65536) as u16;
    let mut f = eip_header(0x0070, session, len);
    f.push(0x00);
    f.push(0x00);
    f.push(0x00);
    f.push(0x00);
    f.push(0x00);
    f.push(0x00);
    f.push(0x02);
    f.push(0x00);
    f.push(0xA1);
    f.push(0x00);
    push_u16_le(&mut f, len);
    f.extend_from_slice(cip.as_slice());
    assert(f@ =~= cip_read_tag(session, conn_id, tag@, count));
    f
}

/// The value of a Read Tag reply: the data starts at byte 26 with a CIP
/// type code; REAL (0xC4), DINT (0xC3), INT (0xC2) and BOOL (0xC1) values
/// follow two bytes later, little-endian. The point's data type name plays
/// no part.
pub open spec fn cip_value(buf: Seq<u8>) -> Option<RawValue> {
    if buf.len() < 30 {
        None
    } else {
        let d = buf.subrange(26, buf.len() as int);
        if d[0] == 0xC4 {
            if d.len() >= 6 { Some(RawValue::Float32(le32_at(d, 2))) } else { None }
        } else if d[0] == 0xC3 {
            if d.len() >= 6 { Some(RawValue::Signed(signed32(le32_at(d, 2) as int) as i64)) } else { None }
        } else if d[0] == 0xC2 {
            Some(RawValue::Signed(signed16(be16(d[3], d[2])) as i64))
        } else if d[0] == 0xC1 {
            Some(RawValue::Flag(d[2] != 0))
        } else {
            None
        }
    }
}

/// A Read Tag reply whose data (from byte 26) is a CIP type code, a pad
/// byte and a value of at least four bytes reads, little-endian: REAL
/// (0xC4) as the IEEE-754 pattern, DINT (0xC3) as a two's-complement 32-bit
/// number, INT (0xC2) as a two's-complement 16-bit number, BOOL (0xC1) as on
/// exactly when the first value byte is non-zero; other type codes give no
/// value.
pub proof fn law_cip_values(head: Seq<u8>, code: u8, pad: u8, v: Seq<u8>)
    requires
        head.len() == 26,
        v.len() >= 4,
    ensures
        ({
            let b = head + seq![code, pad] + v;
            let u16v = v[1] * 0x100 + v[0];
            let u32v = v[3] * 0x100_0000 + v[2] * 0x1_0000 + v[1] * 0x100 + v[0];
            &&& code == 0xC4 ==> cip_value(b) == Some(RawValue::Float32(u32v as u32))
            &&& code == 0xC3 ==> cip_value(b) == Some(RawValue::Signed((if v[3] >= 0x80 { u32v - 0x1_0000_0000 } else { u32v }) as i64))
            &&& code == 0xC2 ==> cip_value(b) == Some(RawValue::Signed((if v[1] >= 0x80 { u16v - 0x1_0000 } else { u16v }) as i64))
            &&& code == 0xC1 ==> cip_value(b) == Some(RawValue::Flag(v[0] != 0))
            &&& (code != 0xC1 && code != 0xC2 && code != 0xC3 && code != 0xC4) ==> cip_value(b) is None
        }),
{
    let b = head + seq![code, pad] + v;
    let d = b.subrange(26, b.len() as int);
    assert(d =~= seq![code, pad] + v);
    assert(d[2] == v[0] && d[3] == v[1] && d[4] == v[2] && d[5] == v[3]);
}

/// Reads the value out of a Read Tag reply.
pub fn parse_cip_data(buf: &[u8], dtype: &str) -> (r: Option<RawValue>)
    ensures
        r == cip_value(buf@),
{
    if buf.len() < 30 {
        return None;
    }
    let d = &buf[26..buf.len()];
    let code = d[0];
    if code == 0xC4 {
        if d.len() >= 6 {
            Some(RawValue::Float32(be32_of(d[5], d[4], d[3], d[2])))
        } else {
            None
        }
    } else if code == 0xC3 {
        if d.len() >= 6 {
            Some(RawValue::Signed(i32_of(d[5], d[4], d[3], d[2]) as i64))
        } else {
            None
        }
    } else if code == 0xC2 {
        Some(RawValue::Signed(i16_of(d[3], d[2]) as i64))
    } else if code == 0xC1 {
        Some(RawValue::Flag(d[2] != 0))
    } else {
        None
    }
}

} // verus!

use vstd::prelude::*;
use crate::bytes::{lemma_u32_be_value, RawValue, be32, be32_of, u32_be, push_u32_be};
use crate::text::text_eq;

verus! {

/// Unit struct naming the BACnet/IP driver.
#[derive(Debug, Clone, Copy, PartialEq, Eq, Structural)]
pub struct BacnetDriver;

impl BacnetDriver {
    /// The driver.
    pub fn new() -> (r: Self)
        ensures
            r == BacnetDriver,
    {
        BacnetDriver
    }

    /// The protocol's name as the logs show it.
    pub fn protocol_name(&self) -> (r: &'static str)
        ensures
            r@ == "BACnet/IP"@,
    {
        "BACnet/IP"
    }
}

/// An unconfirmed request (BVLC unicast, version 1, PDU type 0x10) for
/// `service` naming device instance `dev_id`, with two bytes of padding;
/// the BVLC length field holds the frame length, 13.
pub open spec fn bacnet_unconfirmed_req(dev_id: u32, service: u8) -> Seq<u8> {
    seq![0x81u8, 0x0A, 0x00, 0x0D, 0x01, 0x10, service] + u32_be(dev_id as int) + seq![0x00u8, 0x00]
}

/// Builds an unconfirmed request (Who-Is when `service` is 8) to device `dev_id`.
pub fn build_bacnet_unconfirmed_req(dev_id: u32, service: u8) -> (r: Vec<u8>)
    ensures
        r@ == bacnet_unconfirmed_req(dev_id, service),
{
    let mut pdu: Vec<u8> = Vec::new();
    pdu.push(0x81);
    pdu.push(0x0A);
    pdu.push(0x00);
    pdu.push(0x0D);
    pdu.push(0x01);
    pdu.push(0x10);
    pdu.push(service);
    push_u32_be(&mut pdu, dev_id);
    pdu.push(0x00);
    pdu.push(0x00);
    assert(pdu@ =~= bacnet_unconfirmed_req(dev_id, service));
    pdu
}

/// The object identifier: type in the top ten bits, instance below.
pub open spec fn object_identifier(obj_type: u32, obj_id: u32) -> u32 {
    ((obj_type << 22u32) | obj_id) as u32
}

/// A confirmed ReadProperty request for property `prop_id` (its low byte)
/// of object `obj_type`/`obj_id`; the BVLC length field holds the frame
/// length, 14. The device instance plays no part.
pub open spec fn bacnet_read_property(dev_id: u32, obj_type: u32, obj_id: u32, prop_id: u32) -> Seq<u8> {
    seq![0x81u8, 0x0A, 0x00, 0x0E, 0x01, 0x00, 0x05, 0x01, 0x0C]
        + u32_be(object_identifier(obj_type, obj_id) as int) + seq![(prop_id % 256) as u8]
}

/// An unconfirmed request is a BACnet/IP unicast frame (0x81 0x0A) whose
/// BVLC length field (bytes 2-3, big-endian) is the frame's length; it
/// carries the service at byte 6 and then the device instance big-endian.
pub proof fn law_unconfirmed_request_layout(dev_id: u32, service: u8)
    ensures
        ({
            let u = bacnet_unconfirmed_req(dev_id, service);
            &&& u[0] == 0x81 && u[1] == 0x0A
            &&& u[2] * 256 + u[3] == u.len()
            &&& u[6] == service
            &&& u[7] * 0x100_0000 + u[8] * 0x1_0000 + u[9] * 0x100 + u[10] == dev_id
        }),
{
    lemma_u32_be_value(dev_id);
    let u = bacnet_unconfirmed_req(dev_id, service);
    let b = u32_be(dev_id as int);
    assert(u[7] == b[0] && u[8] == b[1] && u[9] == b[2] && u[10] == b[3]);
}

/// A ReadProperty request is a BACnet/IP unicast frame (0x81 0x0A) whose
/// BVLC length field is the frame's length; it carries the object
/// identifier big-endian at bytes 9-12, the object type above the 22-bit
/// instance, then the property's low byte.
pub proof fn law_read_property_layout(dev_id: u32, obj_type: u32, obj_id: u32, prop_id: u32)
    ensures
        ({
            let r = bacnet_read_property(dev_id, obj_type, obj_id, prop_id);
            &&& r[0] == 0x81 && r[1] == 0x0A
            &&& r[2] * 256 + r[3] == r.len()
            &&& (obj_type < 1024 && obj_id < 0x40_0000) ==>
                r[9] * 0x100_0000 + r[10] * 0x1_0000 + r[11] * 0x100 + r[12] == obj_type * 0x40_0000 + obj_id
            &&& r[13] == prop_id % 256
        }),
{
    let oid = object_identifier(obj_type, obj_id);
    lemma_u32_be_value(oid);
    let r = bacnet_read_property(dev_id, obj_type, obj_id, prop_id);
    let b = u32_be(oid as int);
    assert(r[9] == b[0] && r[10] == b[1] && r[11] == b[2] && r[12] == b[3]);
    if obj_type < 1024 && obj_id < 0x40_0000 {
        assert(((obj_type << 22u32) | obj_id) == obj_type * 0x40_0000 + obj_id) by (bit_vector)
            requires
                obj_type < 1024,
                obj_id < 0x40_0000,
        ;
    }
}

/// Builds a ReadProperty request for property `prop_id` of an object.
pub fn build_bacnet_read_property(dev_id: u32, obj_type: u32, obj_id: u32, prop_id: u32) -> (r: Vec<u8>)
    ensures
        r@ == bacnet_read_property(dev_id, obj_type, obj_id, prop_id),
{
    let mut pdu: Vec<u8> = Vec::new();
    pdu.push(0x81);
    pdu.push(0x0A);
    pdu.push(0x00);
    pdu.push(0x0E);
    pdu.push(0x01);
    pdu.push(0x00);
    pdu.push(0x05);
    pdu.push(0x01);
    pdu.push(0x0C);
    push_u32_be(&mut pdu, (obj_type << 22u32) | obj_id);
    pdu.push((prop_id % 256) as u8);
    assert(pdu@ =~= bacnet_read_property(dev_id, obj_type, obj_id, prop_id));
    pdu
}

/// The object type a point reads: binary input (3) for `bool` points,
/// analog input (0) otherwise.
pub fn bacnet_object_type(dtype: &str) -> (r: u32)
    ensures
        r == (if dtype@ == "bool"@ { 3u32 } else { 0u32 }),
{
    if text_eq(dtype, "bool") {
        3
    } else {
        0
    }
}

/// Scans application tags from `pos` for a REAL (tag 4, length 5 as this
/// collector reads it) whose four bytes follow.
pub open spec fn bacnet_scan(apdu: Seq<u8>, pos: int) -> Option<RawValue>
    decreases apdu.len() - pos,
{
    if pos < 0 || pos + 2 >= apdu.len() {
        None
    } else {
        let tag = apdu[pos] / 16;
        let len = apdu[pos] % 16;
        let p = pos + 1;
        if len == 5 && tag == 4 && p + 4 <= apdu.len() {
            Some(RawValue::Float32(be32(apdu[p], apdu[p + 1], apdu[p + 2], apdu[p + 3]) as u32))
        } else if p + len + 2 < apdu.len() {
            bacnet_scan(apdu, p + len)
        } else {
            None
        }
    }
}

/// The value of a ReadProperty reply: the APDU starts at byte 4; for a
/// Complex-ACK (0x30) or Simple-ACK (0x20) the tags are scanned from APDU
/// byte 2.
pub open spec fn bacnet_value(buf: Seq<u8>) -> Option<RawValue> {
    if buf.len() < 12 {
        None
    } else {
        let apdu = buf.subrange(4, buf.len() as int);
        if apdu[0] == 0x30 || apdu[0] == 0x20 { bacnet_scan(apdu, 2) } else { None }
    }
}

/// A Complex-ACK reply (APDU type 0x30 after the four BVLC bytes) whose
/// first application tag, at APDU byte 2, is a REAL (tag byte 0x45) reads
/// as the IEEE-754 pattern of the four bytes after it, most significant
/// first; a reply whose APDU is neither a Complex-ACK nor a Simple-ACK reads
/// nothing.
pub proof fn law_real_value(bvlc: Seq<u8>, invoke: u8, v: Seq<u8>, tail: Seq<u8>)
    requires
        bvlc.len() == 4,
        v.len() == 4,
        tail.len() >= 1,
    ensures
        bacnet_value(bvlc + seq![0x30u8, invoke, 0x45u8] + v + tail) == Some(RawValue::Float32(
            (v[0] * 0x100_0000 + v[1] * 0x1_0000 + v[2] * 0x100 + v[3]) as u32)),
        forall|b: Seq<u8>| b.len() >= 12 && b[4] != 0x30 && b[4] != 0x20 ==> #[trigger] bacnet_value(b) is None,
{
    let b = bvlc + seq![0x30u8, invoke, 0x45u8] + v + tail;
    let apdu = b.subrange(4, b.len() as int);
    assert(apdu =~= seq![0x30u8, invoke, 0x45u8] + v + tail);
    assert(apdu[2] == 0x45 && apdu[3] == v[0] && apdu[4] == v[1] && apdu[5] == v[2] && apdu[6] == v[3]);
    assert forall|b: Seq<u8>| b.len() >= 12 && b[4] != 0x30 && b[4] != 0x20 implies #[trigger] bacnet_value(b) is None by {
        assert(b.subrange(4, b.len() as int)[0] == b[4]);
    }
}

/// Reads the value out of a ReadProperty reply.
pub fn parse_bacnet_value(buf: &[u8]) -> (r: Option<RawValue>)
    ensures
        r == bacnet_value(buf@),
{
    if buf.len() < 10 {
        return None;
    }
    let apdu = &buf[4..buf.len()];
    if apdu.len() < 8 {
        return None;
    }
    if !(apdu[0] == 0x30 || apdu[0] == 0x20) {
        return None;
    }
    let n = apdu.len();
    let mut pos: usize = 2;
    while pos < n && n - pos > 2
        invariant
            n == apdu@.len(),
            bacnet_value(buf@) == bacnet_scan(apdu@, pos as int),
        decreases n - pos,
    {
        let tag = apdu[pos] / 16;
        let len = (apdu[pos] % 16) as usize;
        let p = pos + 1;
        if len == 5 && tag == 4 && n - p >= 4 {
            return Some(RawValue::Float32(be32_of(apdu[p], apdu[p + 1], apdu[p + 2], apdu[p + 3])));
        }
        if len >= n - p || n - (p + len) <= 2 {
            return None;
        }
        pos = p + len;
    }
    None
}

} // verus!

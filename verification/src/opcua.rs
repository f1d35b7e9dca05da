use vstd::prelude::*;
use crate::bytes::{be32_of, u32_le, push_u32_le};
use crate::dnp3::le32_at;

verus! {

/// Unit struct naming the OPC UA driver.
#[derive(Debug, Clone, Copy, PartialEq, Eq, Structural)]
pub struct OpcUaDriver;

impl OpcUaDriver {
    /// The driver.
    pub fn new() -> (r: Self)
        ensures
            r == OpcUaDriver,
    {
        OpcUaDriver
    }

    /// The protocol's name as the logs show it.
    pub fn protocol_name(&self) -> (r: &'static str)
        ensures
            r@ == "OPC UA"@,
    {
        "OPC UA"
    }
}

/// The endpoint URL the Hello names.
pub open spec fn endpoint_url() -> Seq<u8> {
    seq![0x6Fu8, 0x70, 0x63, 0x2E, 0x74, 0x63, 0x70, 0x3A, 0x2F, 0x2F, 0x6C, 0x6F, 0x63, 0x61, 0x6C,
        0x68, 0x6F, 0x73, 0x74, 0x3A, 0x34, 0x38, 0x34, 0x30]
}

/// The Hello body: protocol version 0, receive and send buffers of 64 KiB,
/// largest message 1024, 10 chunks, then the endpoint URL with its length
/// (all little-endian).
pub open spec fn hello_body() -> Seq<u8> {
    u32_le(0) + u32_le(65536) + u32_le(65536) + u32_le(1024) + u32_le(10) + u32_le(24) + endpoint_url()
}

/// The body of a Hello message.
pub fn build_hello_body() -> (r: Vec<u8>)
    ensures
        r@ == hello_body(),
{
    let url: [u8; 24] = [0x6F, 0x70, 0x63, 0x2E, 0x74, 0x63, 0x70, 0x3A, 0x2F, 0x2F, 0x6C, 0x6F, 0x63,
        0x61, 0x6C, 0x68, 0x6F, 0x73, 0x74, 0x3A, 0x34, 0x38, 0x34, 0x30];
    assert(url@ =~= endpoint_url());
    let mut body: Vec<u8> = Vec::new();
    push_u32_le(&mut body, 0);
    push_u32_le(&mut body, 65536);
    push_u32_le(&mut body, 65536);
    push_u32_le(&mut body, 1024);
    push_u32_le(&mut body, 10);
    push_u32_le(&mut body, 24);
    body.extend_from_slice(&url);
    assert(body@ =~= hello_body());
    body
}

/// The Hello message: type `HEL`, chunk `F`, the body length (not counting
/// the header, little-endian), then the body.
pub open spec fn opcua_hello() -> Seq<u8> {
    seq![0x48u8, 0x45, 0x4C, 0x46] + u32_le(hello_body().len() as int) + hello_body()
}

/// A complete Hello message.
pub fn build_opcua_hello() -> (r: Vec<u8>)
    ensures
        r@ == opcua_hello(),
{
    let body = build_hello_body();
    let mut msg: Vec<u8> = Vec::new();
    msg.push(0x48);
    msg.push(0x45);
    msg.push(0x4C);
    msg.push(0x46);
    push_u32_le(&mut msg, body.len() as u32);
    msg.extend_from_slice(body.as_slice());
    assert(msg@ =~= opcua_hello());
    msg
}

/// The reply is an acknowledgement (`ACK`) or an open-channel reply
/// (`OPN`).
pub open spec fn is_ack_or_open(buf: Seq<u8>) -> bool {
    ||| (buf[0] == 0x41 && buf[1] == 0x43 && buf[2] == 0x4B)
    ||| (buf[0] == 0x4F && buf[1] == 0x50 && buf[2] == 0x4E)
}

/// The 32-bit words a reply offers as float candidates: little-endian, at
/// offsets 8, 12, 16, ... while eight more bytes follow the offset. A reply
/// shorter than 16 bytes, or of another type, offers none.
pub open spec fn opcua_candidates_of(buf: Seq<u8>) -> Seq<u32> {
    if buf.len() < 16 || !is_ack_or_open(buf) {
        seq![]
    } else {
        Seq::new(((buf.len() - 9 - 8) / 4 + 1) as nat, |i: int| le32_at(buf, 8 + 4 * i))
    }
}

/// The float candidates of a reply, as IEEE-754 bit patterns in order.
pub fn opcua_candidates(buf: &[u8]) -> (r: Vec<u32>)
    ensures
        r@ == opcua_candidates_of(buf@),
{
    let mut out: Vec<u32> = Vec::new();
    let n = buf.len();
    if n < 16 {
        return out;
    }
    let ack = buf[0] == 0x41 && buf[1] == 0x43 && buf[2] == 0x4B;
    let opn = buf[0] == 0x4F && buf[1] == 0x50 && buf[2] == 0x4E;
    if !(ack || opn) {
        return out;
    }
    let mut pos: usize = 8;
    let ghost count = ((n - 9 - 8) / 4 + 1) as nat;
    while pos < n && n - pos > 8
        invariant
            n == buf@.len(),
            n >= 16,
            8 <= pos,
            pos == 8 + 4 * out@.len(),
            out@.len() <= count,
            count == ((n - 9 - 8) / 4 + 1) as nat,
            forall|i: int| 0 <= i < out@.len() ==> #[trigger] out@[i] == le32_at(buf@, 8 + 4 * i),
        decreases n - pos,
    {
        out.push(be32_of(buf[pos + 3], buf[pos + 2], buf[pos + 1], buf[pos]));
        pos = pos + 4;
    }
    assert(out@.len() == count);
    assert(out@ =~= opcua_candidates_of(buf@));
    out
}

/// The Hello message is 56 bytes: `HELF`, the length of the body that
/// follows the 8-byte header (little-endian), protocol version 0, then the
/// endpoint URL `opc.tcp://localhost:4840` with its length at the end.
pub proof fn law_hello_layout()
    ensures
        ({
            let m = opcua_hello();
            &&& m.len() == 56
            &&& m.subrange(0, 4) == seq![0x48u8, 0x45, 0x4C, 0x46]
            &&& m[4] + 0x100 * m[5] + 0x1_0000 * m[6] + 0x100_0000 * m[7] == m.len() - 8
            &&& m.subrange(8, 12) == seq![0u8, 0, 0, 0]
            &&& m[28] + 0x100 * m[29] == 24
            &&& m.subrange(32, 56) == endpoint_url()
        }),
{
    let m = opcua_hello();
    assert(m.subrange(0, 4) =~= seq![0x48u8, 0x45, 0x4C, 0x46]);
    assert(m.subrange(8, 12) =~= seq![0u8, 0, 0, 0]);
    assert(m.subrange(32, 56) =~= endpoint_url());
}

/// An `ACK` or `OPN` reply offers, in order, the little-endian words at
/// offsets 8, 12, 16, ...: every offset it reads has more than eight bytes
/// from it to the end, and the next offset would not, so a reply of 17
/// bytes or more offers at least one; any other reply, or one shorter than
/// 16 bytes, offers none.
pub proof fn law_candidate_offsets(buf: Seq<u8>)
    ensures
        ({
            let c = opcua_candidates_of(buf);
            &&& forall|i: int| 0 <= i < c.len() ==> 8 + 4 * i + 8 < buf.len()
                && #[trigger] c[i] == (buf[8 + 4 * i] + buf[9 + 4 * i] * 0x100 + buf[10 + 4 * i] * 0x1_0000
                    + buf[11 + 4 * i] * 0x100_0000) as u32
            &&& c.len() > 0 ==> 8 + 4 * c.len() + 8 >= buf.len()
            &&& (buf.len() < 16 || !is_ack_or_open(buf)) ==> c.len() == 0
            &&& (buf.len() >= 17 && is_ack_or_open(buf)) ==> c.len() > 0
        }),
{
    let c = opcua_candidates_of(buf);
    if buf.len() >= 16 && is_ack_or_open(buf) {
        let n = buf.len() as int;
        let k = (n - 9 - 8) / 4;
        assert(4 * k <= n - 17 < 4 * k + 4);
        assert(c.len() == k + 1);
        assert forall|i: int| 0 <= i < c.len() implies 8 + 4 * i + 8 < buf.len()
            && #[trigger] c[i] == (buf[8 + 4 * i] + buf[9 + 4 * i] * 0x100 + buf[10 + 4 * i] * 0x1_0000
                + buf[11 + 4 * i] * 0x100_0000) as u32 by {
            assert(c[i] == le32_at(buf, 8 + 4 * i));
            assert(4 * i <= 4 * k);
        }
    }
}

} // verus!

use vstd::prelude::*;
use crate::bytes::{FrameFault, RawValue, fold_be, push_all};

verus! {

/// Unit struct naming the SNMP v2c driver.
#[derive(Debug, Clone, Copy, PartialEq, Eq, Structural)]
pub struct SnmpV2cDriver;

impl SnmpV2cDriver {
    /// The driver.
    pub fn new() -> (r: Self)
        ensures
            r == SnmpV2cDriver,
    {
        SnmpV2cDriver
    }

    /// The protocol's name as the logs show it.
    pub fn protocol_name(&self) -> (r: &'static str)
        ensures
            r@ == "SNMP v2c"@,
    {
        "SNMP v2c"
    }
}

/// The OID `1.3.6.1.2.1.X.Y` that register address `100 * X + Y` stands
/// for.
pub open spec fn oid_of_register(addr: u16) -> Seq<u32> {
    seq![1u32, 3, 6, 1, 2, 1, (addr / 100) as u32, (addr % 100) as u32]
}

/// The OID `1.3.6.1.2.1.X.Y` of a register, `X` its hundreds and `Y` the rest.
pub fn build_oid_from_register(addr: u16) -> (r: Vec<u32>)
    ensures
        r@ == oid_of_register(addr),
{
    let parent = addr as u32 / 100;
    let child = addr as u32 % 100;
    let mut v: Vec<u32> = Vec::new();
    v.push(1);
    v.push(3);
    v.push(6);
    v.push(1);
    v.push(2);
    v.push(1);
    v.push(parent);
    v.push(child);
    assert(v@ =~= oid_of_register(addr));
    v
}

/// Leading base-128 digits of a BER sub-identifier, each with the
/// continuation bit set.
pub open spec fn ber_lead(m: nat) -> Seq<u8>
    decreases m,
{
    if m < 128 {
        seq![(m + 128) as u8]
    } else {
        ber_lead(m / 128).push((m % 128 + 128) as u8)
    }
}

/// BER encoding of one OID sub-identifier: its base-128 digits, most
/// significant first, all but the last with bit 0x80 set.
pub open spec fn ber_subid(n: nat) -> Seq<u8> {
    if n < 128 {
        seq![n as u8]
    } else {
        ber_lead(n / 128).push((n % 128) as u8)
    }
}

/// The number that a run of base-128 digits denotes, ignoring the
/// continuation bits.
pub open spec fn base128_value(s: Seq<u8>) -> nat
    decreases s.len(),
{
    if s.len() == 0 {
        0
    } else {
        base128_value(s.drop_last()) * 128 + (s.last() % 128) as nat
    }
}

fn push_ber_lead(out: &mut Vec<u8>, m: u32)
    requires
        m >= 1,
    ensures
        final(out)@ == old(out)@ + ber_lead(m as nat),
    decreases m,
{
    if m >= 128 {
        push_ber_lead(out, m / 128);
    }
    out.push((m % 128 + 128) as u8);
    assert(ber_lead(m as nat) == if m < 128 {
        seq![(m + 128) as u8]
    } else {
        ber_lead((m / 128) as nat).push((m % 128 + 128) as u8)
    });
}

/// Appends the BER encoding of sub-identifier `sub`.
pub fn encode_ber_subid(sub: u32, out: &mut Vec<u8>)
    ensures
        final(out)@ == old(out)@ + ber_subid(sub as nat),
{
    if sub < 128 {
        out.push(sub as u8);
        assert(final(out)@ =~= old(out)@ + ber_subid(sub as nat)) by {
            assert(seq![sub as u8] == ber_subid(sub as nat));
        }
    } else {
        let ghost before = out@;
        push_ber_lead(out, sub / 128);
        out.push((sub % 128) as u8);
        assert(out@ =~= before + ber_subid(sub as nat));
    }
}

proof fn lemma_base128_push(s: Seq<u8>, b: u8)
    ensures
        base128_value(s.push(b)) == base128_value(s) * 128 + (b % 128) as nat,
{
    assert(s.push(b).drop_last() =~= s);
}

proof fn lemma_ber_lead_value(m: nat)
    ensures
        base128_value(ber_lead(m)) == m,
        ber_lead(m).len() >= 1,
        forall|i: int| 0 <= i < ber_lead(m).len() ==> #[trigger] ber_lead(m)[i] >= 128,
        m >= 1 ==> ber_lead(m)[0] != 0x80,
    decreases m,
{
    if m < 128 {
        assert(seq![(m + 128) as u8] =~= Seq::<u8>::empty().push((m + 128) as u8));
        lemma_base128_push(Seq::<u8>::empty(), (m + 128) as u8);
        assert(((m + 128) as u8) % 128 == m);
    } else {
        lemma_ber_lead_value(m / 128);
        lemma_base128_push(ber_lead(m / 128), (m % 128 + 128) as u8);
        assert(((m % 128 + 128) as u8) % 128 == m % 128);
        let s = ber_lead(m);
        assert forall|i: int| 0 <= i < s.len() implies #[trigger] s[i] >= 128 by {
            if i < s.len() - 1 {
                assert(s[i] == ber_lead(m / 128)[i]);
            }
        }
        assert(s[0] == ber_lead(m / 128)[0]);
    }
}

/// The BER encoding of a sub-identifier is its minimal base-128 form: at
/// least one byte, the last byte is the only one without the continuation
/// bit, no leading `0x80` padding byte, and the digits read back as the
/// number.
pub proof fn law_ber_subid_roundtrip(n: nat)
    ensures
        ber_subid(n).len() >= 1,
        ber_subid(n).len() == 1 || ber_subid(n)[0] != 0x80,
        base128_value(ber_subid(n)) == n,
        ber_subid(n).last() < 128,
        forall|i: int| 0 <= i < ber_subid(n).len() - 1 ==> #[trigger] ber_subid(n)[i] >= 128,
{
    if n < 128 {
        assert(seq![n as u8] =~= Seq::<u8>::empty().push(n as u8));
        lemma_base128_push(Seq::<u8>::empty(), n as u8);
    } else {
        lemma_ber_lead_value(n / 128);
        lemma_base128_push(ber_lead(n / 128), (n % 128) as u8);
        let s = ber_subid(n);
        assert forall|i: int| 0 <= i < s.len() - 1 implies #[trigger] s[i] >= 128 by {
            assert(s[i] == ber_lead(n / 128)[i]);
        }
        assert(s[0] == ber_lead(n / 128)[0]);
    }
}

/// BER encodings of a run of sub-identifiers, one after the other.
pub open spec fn ber_all(s: Seq<u32>) -> Seq<u8>
    decreases s.len(),
{
    if s.len() == 0 {
        seq![]
    } else {
        ber_all(s.drop_last()) + ber_subid(s.last() as nat)
    }
}

/// The content bytes of an OID: the first two arcs folded into one
/// sub-identifier `40 * a + b`, then the other arcs, each BER-encoded.
pub open spec fn oid_content(oid: Seq<u32>) -> Seq<u8> {
    if oid.len() < 2 {
        seq![]
    } else {
        ber_subid((oid[0] * 40 + oid[1]) as nat) + ber_all(oid.subrange(2, oid.len() as int))
    }
}

/// The big-endian bytes of `n`, without leading zero bytes (one byte for 0).
pub open spec fn be_bytes(n: nat) -> Seq<u8>
    decreases n,
{
    if n < 256 {
        seq![n as u8]
    } else {
        be_bytes(n / 256).push((n % 256) as u8)
    }
}

/// The minimal BER definite length of `n`: one byte below 128, else a byte
/// `0x80 + k` followed by the `k` big-endian bytes of `n`.
pub open spec fn ber_length(n: nat) -> Seq<u8> {
    if n < 128 {
        seq![n as u8]
    } else {
        seq![(0x80 + be_bytes(n).len()) as u8] + be_bytes(n)
    }
}

/// A BER element: its tag, the minimal length of its content, the content.
pub open spec fn tlv(tag: u8, content: Seq<u8>) -> Seq<u8> {
    seq![tag] + ber_length(content.len()) + content
}

/// The GetRequest message for `oid` under `community`, in minimal BER:
/// SEQUENCE { version 1 (v2c), community, GetRequest-PDU { request id 1,
/// error 0, error index 0, SEQUENCE { SEQUENCE { oid, NULL } } } }.
pub open spec fn snmp_get_message(community: Seq<u8>, oid: Seq<u32>) -> Seq<u8> {
    let varbind = tlv(0x30, tlv(0x06, oid_content(oid)) + seq![0x05u8, 0x00u8]);
    let pdu = tlv(0xA0, seq![0x02u8, 0x02, 0x00, 0x01, 0x02, 0x01, 0x00, 0x02, 0x01, 0x00]
        + tlv(0x30, varbind));
    tlv(0x30, seq![0x02u8, 0x01, 0x01] + tlv(0x04, community) + pdu)
}

/// 256 to the power `k`.
pub open spec fn pow256(k: nat) -> nat
    decreases k,
{
    if k == 0 {
        1
    } else {
        256 * pow256((k - 1) as nat)
    }
}

proof fn lemma_be_bytes_len(n: nat, k: nat)
    requires
        k >= 1,
        n < pow256(k),
    ensures
        be_bytes(n).len() <= k,
    decreases k,
{
    if n >= 256 {
        assert(k >= 2) by {
            if k == 1 {
                assert(pow256(1) == 256 * pow256(0));
            }
        }
        let p = pow256((k - 1) as nat);
        assert(pow256(k) == 256 * p);
        assert(n / 256 < p) by (nonlinear_arith)
            requires
                n < 256 * p,
        ;
        lemma_be_bytes_len(n / 256, (k - 1) as nat);
    }
}

fn push_be_bytes(out: &mut Vec<u8>, n: usize)
    ensures
        final(out)@ == old(out)@ + be_bytes(n as nat),
    decreases n,
{
    if n >= 256 {
        push_be_bytes(out, n / 256);
    }
    out.push((n % 256) as u8);
    assert(be_bytes(n as nat) == if n < 256 {
        seq![n as u8]
    } else {
        be_bytes((n / 256) as nat).push((n % 256) as u8)
    });
}

fn push_ber_length(out: &mut Vec<u8>, n: usize)
    ensures
        final(out)@ == old(out)@ + ber_length(n as nat),
{
    if n < 128 {
        out.push(n as u8);
    } else {
        let mut t: Vec<u8> = Vec::new();
        push_be_bytes(&mut t, n);
        assert(t@ =~= be_bytes(n as nat));
        proof {
            reveal_with_fuel(pow256, 9);
            assert(pow256(8) == 0x1_0000_0000_0000_0000);
            lemma_be_bytes_len(n as nat, 8);
        }
        out.push((0x80 + t.len()) as u8);
        push_all(out, t.as_slice());
    }
}

fn push_tlv(out: &mut Vec<u8>, tag: u8, content: &[u8])
    ensures
        final(out)@ == old(out)@ + tlv(tag, content@),
{
    out.push(tag);
    push_ber_length(out, content.len());
    push_all(out, content);
    assert(out@ =~= old(out)@ + tlv(tag, content@));
}

fn push_ber_all(out: &mut Vec<u8>, s: &[u32], from: usize)
    requires
        from <= s@.len(),
    ensures
        final(out)@ == old(out)@ + ber_all(s@.subrange(from as int, s@.len() as int)),
{
    let mut i: usize = from;
    assert(s@.subrange(from as int, from as int) =~= Seq::<u32>::empty());
    assert(out@ =~= old(out)@ + ber_all(s@.subrange(from as int, i as int)));
    while i < s.len()
        invariant
            from <= i <= s@.len(),
            out@ == old(out)@ + ber_all(s@.subrange(from as int, i as int)),
        decreases s@.len() - i,
    {
        let ghost prev = out@;
        encode_ber_subid(s[i], out);
        proof {
            let next = s@.subrange(from as int, i + 1);
            assert(next.drop_last() =~= s@.subrange(from as int, i as int));
            assert(next.last() == s@[i as int]);
            assert(out@ =~= old(out)@ + ber_all(next));
        }
        i = i + 1;
    }
}

/// A GetRequest short enough for one-byte lengths is `30 L` with `L` the
/// rest of the message; version 1 (`02 01 01`); the community as an OCTET
/// STRING (`04`, its length, its bytes); the PDU `A0` whose length is the
/// rest of the message; and, closing the message, the OID (`06`, its
/// length, its content bytes) followed by the NULL value `05 00`.
pub proof fn law_get_message_layout(community: Seq<u8>, oid: Seq<u32>)
    requires
        community.len() + oid_content(oid).len() + 25 < 128,
    ensures
        ({
            let m = snmp_get_message(community, oid);
            let c = community.len() as int;
            let o = oid_content(oid);
            let n = m.len() as int;
            &&& n == c + o.len() + 27
            &&& m[0] == 0x30 && m[1] == n - 2
            &&& m[2] == 0x02 && m[3] == 0x01 && m[4] == 0x01
            &&& m[5] == 0x04 && m[6] == c && m.subrange(7, 7 + c) == community
            &&& m[7 + c] == 0xA0 && m[8 + c] == n - 9 - c
            &&& m[n - o.len() - 4] == 0x06 && m[n - o.len() - 3] == o.len()
            &&& m.subrange(n - o.len() - 2, n - 2) == o
            &&& m[n - 2] == 0x05 && m[n - 1] == 0x00
        }),
{
    let c = community.len() as int;
    let o = oid_content(oid);
    let t_oid = tlv(0x06, o);
    assert(t_oid =~= seq![0x06u8, o.len() as u8] + o);
    let vb_inner = t_oid + seq![0x05u8, 0x00u8];
    let varbind = tlv(0x30, vb_inner);
    assert(varbind =~= seq![0x30u8, vb_inner.len() as u8] + vb_inner);
    let vbs = tlv(0x30, varbind);
    assert(vbs =~= seq![0x30u8, varbind.len() as u8] + varbind);
    let body = seq![0x02u8, 0x02, 0x00, 0x01, 0x02, 0x01, 0x00, 0x02, 0x01, 0x00] + vbs;
    let pdu = tlv(0xA0, body);
    assert(pdu =~= seq![0xA0u8, body.len() as u8] + body);
    let tc = tlv(0x04, community);
    assert(tc =~= seq![0x04u8, c as u8] + community);
    let inner = seq![0x02u8, 0x01, 0x01] + tc + pdu;
    let m = tlv(0x30, inner);
    assert(m =~= seq![0x30u8, inner.len() as u8] + inner);
    assert(m == snmp_get_message(community, oid));
    let n = m.len() as int;
    assert(n == c + o.len() + 27);
    assert(m.subrange(7, 7 + c) =~= community);
    assert(m.subrange(n - o.len() - 2, n - 2) =~= o);
}

/// Builds the SNMP v2c GetRequest for `oid`, in minimal BER.
pub fn build_snmp_get(community: &[u8], oid: &[u32]) -> (r: Vec<u8>)
    requires
        oid@.len() != 1,
        oid@.len() >= 2 ==> oid@[0] * 40 + oid@[1] <= u32::MAX,
    ensures
        r@ == snmp_get_message(community@, oid@),
{
    let mut ob: Vec<u8> = Vec::new();
    if oid.len() >= 2 {
        encode_ber_subid(oid[0] * 40 + oid[1], &mut ob);
        push_ber_all(&mut ob, oid, 2);
    }
    assert(ob@ =~= oid_content(oid@));
    let mut vb: Vec<u8> = Vec::new();
    push_tlv(&mut vb, 0x06, ob.as_slice());
    vb.push(0x05);
    vb.push(0x00);
    assert(vb@ =~= tlv(0x06, oid_content(oid@)) + seq![0x05u8, 0x00u8]);
    let mut varbind: Vec<u8> = Vec::new();
    push_tlv(&mut varbind, 0x30, vb.as_slice());
    let mut body: Vec<u8> = Vec::new();
    body.push(0x02);
    body.push(0x02);
    body.push(0x00);
    body.push(0x01);
    body.push(0x02);
    body.push(0x01);
    body.push(0x00);
    body.push(0x02);
    body.push(0x01);
    body.push(0x00);
    push_tlv(&mut body, 0x30, varbind.as_slice());
    assert(body@ =~= seq![0x02u8, 0x02, 0x00, 0x01, 0x02, 0x01, 0x00, 0x02, 0x01, 0x00]
        + tlv(0x30, varbind@));
    let mut inner: Vec<u8> = Vec::new();
    inner.push(0x02);
    inner.push(0x01);
    inner.push(0x01);
    push_tlv(&mut inner, 0x04, community);
    push_tlv(&mut inner, 0xA0, body.as_slice());
    assert(inner@ =~= seq![0x02u8, 0x01, 0x01] + tlv(0x04, community@) + tlv(0xA0, body@));
    let mut msg: Vec<u8> = Vec::new();
    push_tlv(&mut msg, 0x30, inner.as_slice());
    assert(msg@ =~= snmp_get_message(community@, oid@));
    msg
}

/// Where a scan of an SNMP response ends.
#[derive(Debug, Clone, Copy, PartialEq, Eq, Structural)]
pub enum SnmpScan {
    /// An INTEGER, Counter32 or Gauge32 field with this value (its content
    /// bytes, big-endian, kept to 64 bits).
    Found(u64),
    /// No such field before the end of the message.
    NotFound,
    /// A field runs past the end of the message, or a position overflows.
    Fault,
}

/// Scans the type-length-value fields of a response from `pos` on, in
/// order, without descending: the first INTEGER (0x02), Counter32 (0x41)
/// or Gauge32 (0x42) field gives the value; other fields are skipped by
/// their length. A length byte with bit 0x80 set is followed by that many
/// (minus 0x80) big-endian length bytes, kept modulo the machine word.
pub open spec fn snmp_scan(buf: Seq<u8>, pos: int) -> SnmpScan
    decreases buf.len() - pos,
{
    if pos < 0 || pos + 2 >= buf.len() {
        SnmpScan::NotFound
    } else {
        let tag = buf[pos];
        let l0 = buf[pos + 1];
        let p = pos + 2;
        let llen: int = if l0 >= 128 { l0 - 128 } else { 0 };
        if l0 >= 128 && p + llen > buf.len() {
            SnmpScan::Fault
        } else {
            let len: int = if l0 >= 128 { fold_be(buf.subrange(p, p + llen), usize::MAX + 1) } else { l0 as int };
            let q = p + llen;
            if tag == 0x02 || tag == 0x41 || tag == 0x42 {
                if len > 0 && q + len > buf.len() {
                    SnmpScan::Fault
                } else {
                    SnmpScan::Found(fold_be(buf.subrange(q, q + len), 0x1_0000_0000_0000_0000) as u64)
                }
            } else if q + len > usize::MAX {
                SnmpScan::Fault
            } else if q + len + 2 > usize::MAX {
                SnmpScan::Fault
            } else if q + len + 2 < buf.len() {
                snmp_scan(buf, q + len)
            } else {
                SnmpScan::NotFound
            }
        }
    }
}

/// The scan reads the first INTEGER, Counter32 or Gauge32 field with a
/// short length: its content bytes as one big-endian number; a field of any
/// other type with a short length is stepped over, the scan going on right
/// after its content.
pub proof fn law_scan_fields(buf: Seq<u8>, pos: int)
    requires
        0 <= pos,
        pos + 2 < buf.len(),
        buf[pos + 1] < 128,
        pos + 2 + buf[pos + 1] <= buf.len(),
    ensures
        (buf[pos] == 0x02 || buf[pos] == 0x41 || buf[pos] == 0x42) ==> snmp_scan(buf, pos) == SnmpScan::Found(
            fold_be(buf.subrange(pos + 2, pos + 2 + buf[pos + 1]), 0x1_0000_0000_0000_0000) as u64),
        (buf[pos] != 0x02 && buf[pos] != 0x41 && buf[pos] != 0x42 && pos + 2 + buf[pos + 1] + 2 < buf.len()
            && buf.len() < usize::MAX)
            ==> snmp_scan(buf, pos) == snmp_scan(buf, pos + 2 + buf[pos + 1]),
{
}

/// The value an SNMP response carries, read as [`snmp_scan`] describes
/// from just after the outer SEQUENCE tag.
pub open spec fn snmp_response_value(buf: Seq<u8>) -> SnmpScan {
    if buf.len() < 10 || buf[0] != 0x30 {
        SnmpScan::NotFound
    } else {
        snmp_scan(buf, 1)
    }
}

fn fold_be_word(buf: &[u8], from: usize, n: usize) -> (r: usize)
    requires
        from + n <= buf@.len(),
    ensures
        r == fold_be(buf@.subrange(from as int, from + n), usize::MAX + 1),
{
    let mut acc: usize = 0;
    let total = buf.len();
    let mut i: usize = 0;
    while i < n
        invariant
            i <= n,
            total == buf@.len(),
            from + n <= buf@.len(),
            acc == fold_be(buf@.subrange(from as int, from + i), usize::MAX + 1),
        decreases n - i,
    {
        let b = buf[from + i];
        let wide = ((acc as u128) * 256 + (b as u128)) % ((usize::MAX as u128) + 1);
        proof {
            let s = buf@.subrange(from as int, from + i + 1);
            assert(s.drop_last() =~= buf@.subrange(from as int, from + i));
        }
        acc = wide as usize;
        i = i + 1;
    }
    acc
}

fn fold_be_u64(buf: &[u8], from: usize, n: usize) -> (r: u64)
    requires
        from + n <= buf@.len(),
    ensures
        r == fold_be(buf@.subrange(from as int, from + n), 0x1_0000_0000_0000_0000),
{
    let mut acc: u64 = 0;
    let total = buf.len();
    let mut i: usize = 0;
    while i < n
        invariant
            i <= n,
            total == buf@.len(),
            from + n <= buf@.len(),
            acc == fold_be(buf@.subrange(from as int, from + i), 0x1_0000_0000_0000_0000),
        decreases n - i,
    {
        let b = buf[from + i];
        let wide = ((acc as u128) * 256 + (b as u128)) % 0x1_0000_0000_0000_0000u128;
        proof {
            let s = buf@.subrange(from as int, from + i + 1);
            assert(s.drop_last() =~= buf@.subrange(from as int, from + i));
        }
        acc = wide as u64;
        i = i + 1;
    }
    acc
}

/// Reads the first integer value out of an SNMP response; `Ok(None)` where
/// there is none, `Err` where a field runs past the end of the buffer.
pub fn parse_snmp_response(buf: &[u8]) -> (r: Result<Option<RawValue>, FrameFault>)
    ensures
        r == (match snmp_response_value(buf@) {
            SnmpScan::Found(v) => Ok(Some(RawValue::Unsigned(v))),
            SnmpScan::NotFound => Ok(None),
            SnmpScan::Fault => Err(FrameFault),
        }),
{
    if buf.len() < 10 || buf[0] != 0x30 {
        return Ok(None);
    }
    let n = buf.len();
    let mut pos: usize = 1;
    while pos + 2 < n
        invariant
            n == buf@.len(),
            n >= 10,
            1 <= pos,
            pos + 2 <= usize::MAX,
            snmp_response_value(buf@) == snmp_scan(buf@, pos as int),
        decreases (if pos < n { n - pos } else { 0 }),
    {
        let tag = buf[pos];
        let l0 = buf[pos + 1];
        let p = pos + 2;
        let llen: usize = if l0 >= 128 {
            (l0 - 128) as usize
        } else {
            0
        };
        if l0 >= 128 && llen > n - p {
            return Err(FrameFault);
        }
        let len: usize = if l0 >= 128 {
            fold_be_word(buf, p, llen)
        } else {
            l0 as usize
        };
        let q = p + llen;
        if tag == 0x02 || tag == 0x41 || tag == 0x42 {
            if len > 0 && len > n - q {
                return Err(FrameFault);
            }
            let v = fold_be_u64(buf, q, len);
            return Ok(Some(RawValue::Unsigned(v)));
        }
        if len > usize::MAX - q {
            return Err(FrameFault);
        }
        if q + len > usize::MAX - 2 {
            return Err(FrameFault);
        }
        pos = q + len;
    }
    Ok(None)
}

} // verus!

use vstd::prelude::*;
use crate::bytes::FrameFault;
use crate::iec101::byte_sum;

verus! {

/// The DL/T645 meter-reading driver, for the 1997 or the 2007 edition.
#[derive(Debug, Clone, Copy, PartialEq, Eq, Structural)]
pub struct DLT645Driver {
    pub is_1997: bool,
}

impl DLT645Driver {
    pub fn new(is_1997: bool) -> (r: Self)
        ensures
            r.is_1997 == is_1997,
    {
        DLT645Driver { is_1997 }
    }

    /// The protocol's name as the logs show it.
    pub fn protocol_name(&self) -> (r: &'static str)
        ensures
            r@ == (if self.is_1997 { "DL/T645-1997"@ } else { "DL/T645-2007"@ }),
    {
        if self.is_1997 {
            "DL/T645-1997"
        } else {
            "DL/T645-2007"
        }
    }
}

/// `100` to the power `k`.
pub open spec fn pow100(k: nat) -> nat
    decreases k,
{
    if k == 0 { 1 } else { 100 * pow100((k - 1) as nat) }
}

/// Two decimal digits `d` (0 to 99) packed as BCD: tens in the high nibble,
/// units in the low nibble.
pub open spec fn bcd_byte(d: nat) -> u8 {
    ((d / 10) * 16 + d % 10) as u8
}

/// The six address bytes of a meter number: its last twelve decimal digits
/// in BCD, two per byte, low byte first (byte `i` holds digits `2i` and
/// `2i + 1` counted from the units).
pub open spec fn meter_address(addr: u64) -> Seq<u8> {
    Seq::new(6, |i: int| bcd_byte((addr as nat / pow100(i as nat)) % 100))
}

/// The BCD address field of a meter, low byte first.
pub fn format_addr(addr: u64) -> (r: Vec<u8>)
    ensures
        r@ == meter_address(addr),
{
    let mut bytes: Vec<u8> = Vec::new();
    let mut remaining = addr;
    let mut i: usize = 0;
    assert(pow100(0) == 1);
    assert(addr as nat / pow100(0) == addr as nat);
    while i < 6
        invariant
            i <= 6,
            bytes@.len() == i,
            remaining as nat == addr as nat / pow100(i as nat),
            forall|j: int| 0 <= j < i ==> #[trigger] bytes@[j] == meter_address(addr)[j],
        decreases 6 - i,
    {
        let d = remaining % 100;
        bytes.push(((d / 10) * 16 + d % 10) as u8);
        proof {
            lemma_div_pow100(addr as nat, i as nat);
        }
        remaining = remaining / 100;
        i = i + 1;
    }
    assert(bytes@ =~= meter_address(addr));
    bytes
}

proof fn lemma_div_pow100(a: nat, k: nat)
    ensures
        a / pow100(k) / 100 == a / pow100(k + 1),
        pow100(k) > 0,
    decreases k,
{
    if k > 0 {
        lemma_div_pow100(a, (k - 1) as nat);
    }
    assert(pow100(k + 1) == 100 * pow100(k));
    vstd::arithmetic::div_mod::lemma_div_denominator(a as int, pow100(k) as int, 100);
    assert(pow100(k) * 100 == 100 * pow100(k)) by (nonlinear_arith);
}

/// The data identifier of a register address: two zero bytes, then the
/// address, high byte first. The function code plays no part.
pub fn decode_data_identifier(register_address: &u16, func_code: &str) -> (r: [u8; 4])
    ensures
        r@ == seq![0u8, 0u8, (*register_address / 256) as u8, (*register_address % 256) as u8],
{
    let v = *register_address;
    let r = [0u8, 0u8, (v / 256) as u8, (v % 256) as u8];
    assert(r@ =~= seq![0u8, 0u8, (v / 256) as u8, (v % 256) as u8]);
    r
}

/// A read-data frame: 0x68, address, 0x68, control code (0x01 for the 1997
/// edition, 0x11 for 2007), length 4, data identifier, checksum of all
/// bytes after the first, 0x16.
pub open spec fn dlt645_read_frame(addr: Seq<u8>, di: Seq<u8>, is_1997: bool) -> Seq<u8> {
    let body = addr + seq![0x68u8, if is_1997 { 0x01u8 } else { 0x11u8 }, 0x04u8] + di;
    seq![0x68u8] + body + seq![byte_sum(body) as u8, 0x16u8]
}

fn sum_of(s: &[u8]) -> (r: u8)
    ensures
        r == byte_sum(s@),
{
    let mut acc: u8 = 0;
    let mut i: usize = 0;
    while i < s.len()
        invariant
            i <= s@.len(),
            acc == byte_sum(s@.subrange(0, i as int)),
        decreases s@.len() - i,
    {
        proof {
            let t = s@.subrange(0, i + 1);
            assert(t.drop_last() =~= s@.subrange(0, i as int));
        }
        acc = ((acc as u16 + s[i] as u16) % 256) as u8;
        i = i + 1;
    }
    assert(s@.subrange(0, s@.len() as int) =~= s@);
    acc
}

/// Builds a read-data request frame for the meter at `addr`.
pub fn build_645_read_frame(addr: &[u8], di: &[u8; 4], is_1997: bool) -> (r: Vec<u8>)
    ensures
        r@ == dlt645_read_frame(addr@, di@, is_1997),
{
    let mut body: Vec<u8> = Vec::new();
    body.extend_from_slice(addr);
    body.push(0x68);
    body.push(if is_1997 {
        0x01
    } else {
        0x11
    });
    body.push(0x04);
    body.extend_from_slice(di);
    assert(body@ =~= addr@ + seq![0x68u8, if is_1997 { 0x01u8 } else { 0x11u8 }, 0x04u8] + di@);
    let cs = sum_of(body.as_slice());
    let mut frame: Vec<u8> = Vec::new();
    frame.push(0x68);
    frame.extend_from_slice(body.as_slice());
    frame.push(cs);
    frame.push(0x16);
    assert(frame@ =~= dlt645_read_frame(addr@, di@, is_1997));
    frame
}

/// Index of the first 0x68 in `s` from `from` on.
pub open spec fn first_start(s: Seq<u8>, from: int) -> Option<int>
    decreases s.len() - from,
{
    if from < 0 || from >= s.len() {
        None
    } else if s[from] == 0x68 {
        Some(from)
    } else {
        first_start(s, from + 1)
    }
}

/// The BCD digit pairs of a data field, from its last byte to its first:
/// each byte less 0x33 (wrapping) is one pair; 0x2E bytes are skipped and
/// so are bytes whose nibbles are not both decimal digits.
pub open spec fn bcd_pairs(data: Seq<u8>) -> Seq<u8>
    decreases data.len(),
{
    if data.len() == 0 {
        seq![]
    } else {
        let b = ((data.last() + 256 - 0x33) % 256) as u8;
        let hi = b / 16;
        let lo = b % 16;
        let rest = bcd_pairs(data.drop_last());
        if b == 0x2E || hi > 9 || lo > 9 {
            seq![] + rest
        } else {
            seq![(hi * 10 + lo) as u8] + rest
        }
    }
}

/// The reading of a response frame, as base-100 digits, least significant
/// first: the frame starts at the first 0x68; its length byte is 9 bytes
/// later and the data field follows it.
pub open spec fn dlt645_pairs(buf: Seq<u8>) -> Result<Option<Seq<u8>>, FrameFault> {
    if buf.len() < 10 {
        Ok(None)
    } else {
        match first_start(buf, 0) {
            None => Ok(None),
            Some(start) => {
                if start + 8 >= buf.len() {
                    Ok(None)
                } else if start + 9 >= buf.len() {
                    Err(FrameFault)
                } else {
                    let c = start + 8;
                    let len = buf[c + 1] as int;
                    if c + 2 + len > buf.len() {
                        Ok(None)
                    } else {
                        Ok(Some(bcd_pairs(buf.subrange(c + 2, c + 2 + len))))
                    }
                }
            },
        }
    }
}

/// A data field whose bytes are BCD digit pairs plus 0x33 decodes to those
/// pairs, last byte first.
pub proof fn law_bcd_pairs_decode(p: Seq<u8>)
    requires
        forall|i: int| 0 <= i < p.len() ==> #[trigger] p[i] < 100,
    ensures
        bcd_pairs(Seq::new(p.len(), |j: int| ((bcd_byte(p[j] as nat) + 0x33) % 256) as u8)) == p.reverse(),
    decreases p.len(),
{
    let data = Seq::new(p.len(), |j: int| ((bcd_byte(p[j] as nat) + 0x33) % 256) as u8);
    if p.len() > 0 {
        let q = p.drop_last();
        assert forall|i: int| 0 <= i < q.len() implies #[trigger] q[i] < 100 by {
            assert(q[i] == p[i]);
        }
        law_bcd_pairs_decode(q);
        assert(data.drop_last() =~= Seq::new(q.len(), |j: int| ((bcd_byte(q[j] as nat) + 0x33) % 256) as u8));
        let x = p.last();
        assert(x < 100);
        let bb = bcd_byte(x as nat);
        assert(bb == (x / 10) * 16 + x % 10);
        assert(bb <= 0x99);
        assert(((data.last() + 256 - 0x33) % 256) as u8 == bb);
        assert(bb / 16 == x / 10 && bb % 16 == x % 10);
        assert(bb != 0x2E);
        assert(((x / 10) * 10 + x % 10) as u8 == x);
        assert(p.reverse() =~= seq![x] + q.reverse());
    } else {
        assert(p.reverse() =~= Seq::<u8>::empty());
    }
}

/// A response frame starting with 0x68, six address bytes, 0x68, a control
/// byte and the length `L` of its data field reads the BCD pairs of those
/// `L` data bytes.
pub proof fn law_response_data_field(addr: Seq<u8>, ctrl: u8, data: Seq<u8>, tail: Seq<u8>)
    requires
        addr.len() == 6,
        data.len() <= 255,
        data.len() + tail.len() >= 1,
    ensures
        dlt645_pairs(seq![0x68u8] + addr + seq![0x68u8, ctrl, data.len() as u8] + data + tail)
            == Ok::<Option<Seq<u8>>, FrameFault>(Some(bcd_pairs(data))),
{
    let b = seq![0x68u8] + addr + seq![0x68u8, ctrl, data.len() as u8] + data + tail;
    assert(b[0] == 0x68);
    assert(first_start(b, 0) == Some(0int));
    assert(b[9] == data.len());
    assert(b.subrange(10, 10 + data.len() as int) =~= data);
}

/// A read-data request is 16 bytes: 0x68, the six address bytes, 0x68, the
/// control code (0x01 for the 1997 edition, 0x11 for 2007), data length 4,
/// the four data-identifier bytes, the checksum (the sum of bytes 1 to 13
/// modulo 256), and the end byte 0x16.
pub proof fn law_read_frame_layout(addr: Seq<u8>, di: Seq<u8>, is_1997: bool)
    requires
        addr.len() == 6,
        di.len() == 4,
    ensures
        ({
            let f = dlt645_read_frame(addr, di, is_1997);
            &&& f.len() == 16
            &&& f[0] == 0x68 && f.subrange(1, 7) == addr && f[7] == 0x68
            &&& f[8] == (if is_1997 { 0x01u8 } else { 0x11u8 })
            &&& f[9] == 4
            &&& f.subrange(10, 14) == di
            &&& f[14] == byte_sum(f.subrange(1, 14))
            &&& f[15] == 0x16
        }),
{
    let f = dlt645_read_frame(addr, di, is_1997);
    let body = addr + seq![0x68u8, if is_1997 { 0x01u8 } else { 0x11u8 }, 0x04u8] + di;
    assert(f.subrange(1, 14) =~= body);
    assert(f.subrange(1, 7) =~= addr);
    assert(f.subrange(10, 14) =~= di);
    lemma_byte_sum_range(body);
}

proof fn lemma_byte_sum_range(s: Seq<u8>)
    ensures
        0 <= byte_sum(s) < 256,
    decreases s.len(),
{
    if s.len() > 0 {
        lemma_byte_sum_range(s.drop_last());
    }
}

/// Reads the BCD digit pairs of a response frame's data field, least
/// significant first; the reading is the sum of each pair times 100 to the
/// power of its position.
pub fn parse_645_response(buf: &[u8]) -> (r: Result<Option<Vec<u8>>, FrameFault>)
    ensures
        match r {
            Ok(Some(v)) => dlt645_pairs(buf@) == Ok::<Option<Seq<u8>>, FrameFault>(Some(v@)),
            Ok(None) => dlt645_pairs(buf@) == Ok::<Option<Seq<u8>>, FrameFault>(None),
            Err(e) => dlt645_pairs(buf@) == Err::<Option<Seq<u8>>, FrameFault>(e),
        },
{
    let n = buf.len();
    if n < 10 {
        return Ok(None);
    }
    let mut start: usize = 0;
    while start < n && buf[start] != 0x68
        invariant
            start <= n,
            n == buf@.len(),
            first_start(buf@, 0) == first_start(buf@, start as int),
        decreases n - start,
    {
        start = start + 1;
    }
    if start >= n {
        return Ok(None);
    }
    if n - start <= 8 {
        return Ok(None);
    }
    if n - start <= 9 {
        return Err(FrameFault);
    }
    let c = start + 8;
    let len = buf[c + 1] as usize;
    if len > n - c - 2 {
        return Ok(None);
    }
    let data = &buf[c + 2..c + 2 + len];
    let mut out: Vec<u8> = Vec::new();
    let mut i: usize = len;
    assert(data@.subrange(0, len as int) =~= data@);
    while i > 0
        invariant
            i <= len,
            len == data@.len(),
            out@ + bcd_pairs(data@.subrange(0, i as int)) == bcd_pairs(data@),
        decreases i,
    {
        let ghost prefix = data@.subrange(0, i as int);
        assert(prefix.drop_last() =~= data@.subrange(0, i - 1));
        let b = ((data[i - 1] as u16 + 256 - 0x33) % 256) as u8;
        let hi = b / 16;
        let lo = b % 16;
        if !(b == 0x2E || hi > 9 || lo > 9) {
            out.push(hi * 10 + lo);
        }
        i = i - 1;
        assert(out@ + bcd_pairs(data@.subrange(0, i as int)) =~= bcd_pairs(data@));
    }
    assert(data@.subrange(0, 0) =~= Seq::<u8>::empty());
    assert(out@ =~= bcd_pairs(data@));
    Ok(Some(out))
}


/// The two decimal digits a BCD byte holds (tens in the high nibble).
pub open spec fn bcd_digits(b: u8) -> nat {
    ((b / 16) * 10 + b % 16) as nat
}

/// The number an address field holds: BCD bytes, low byte first.
pub open spec fn address_value(s: Seq<u8>) -> nat
    decreases s.len(),
{
    if s.len() == 0 {
        0
    } else {
        bcd_digits(s[0]) + 100 * address_value(s.drop_first())
    }
}

/// Reading a meter's address field back gives its number, up to its last
/// twelve decimal digits.
pub proof fn law_meter_address_roundtrip(addr: u64)
    ensures
        address_value(meter_address(addr)) == addr as nat % pow100(6),
{
    lemma_address_suffix(addr, 0);
    assert(meter_address(addr).subrange(0, 6) =~= meter_address(addr));
    assert(pow100(0) == 1);
    assert(addr as nat / 1 == addr as nat);
}

proof fn lemma_address_suffix(addr: u64, k: int)
    requires
        0 <= k <= 6,
    ensures
        address_value(meter_address(addr).subrange(k, 6)) == (addr as nat / pow100(k as nat)) % pow100((6 - k) as nat),
    decreases 6 - k,
{
    let s = meter_address(addr);
    let a = addr as nat;
    lemma_div_pow100(a, k as nat);
    if k == 6 {
        assert(s.subrange(6, 6) =~= Seq::<u8>::empty());
        assert(pow100(0) == 1);
    } else {
        lemma_address_suffix(addr, k + 1);
        let q = a / pow100(k as nat);
        let d = q % 100;
        assert(s[k] == bcd_byte(d));
        assert(bcd_digits(bcd_byte(d)) == d) by {
            assert(d < 100);
            assert((d / 10) * 16 + d % 10 < 256);
        }
        assert(s.subrange(k, 6).drop_first() =~= s.subrange(k + 1, 6));
        assert(s.subrange(k, 6)[0] == s[k]);
        assert(pow100((6 - k) as nat) == 100 * pow100((6 - (k + 1)) as nat));
        lemma_div_pow100(a, (6 - (k + 1)) as nat);
        vstd::arithmetic::div_mod::lemma_mod_breakdown(q as int, 100, pow100((6 - (k + 1)) as nat) as int);
        assert(a / pow100((k + 1) as nat) == q / 100);
    }
}

} // verus!

use vstd::prelude::*;
use crate::bytes::{RawValue, be32_of};

verus! {

/// Unit struct naming the DNP3 driver.
#[derive(Debug, Clone, Copy, PartialEq, Eq, Structural)]
pub struct DNP3Driver;

impl DNP3Driver {
    /// The driver.
    pub fn new() -> (r: Self)
        ensures
            r == DNP3Driver,
    {
        DNP3Driver
    }

    /// The protocol's name as the logs show it.
    pub fn protocol_name(&self) -> (r: &'static str)
        ensures
            r@ == "DNP3"@,
    {
        "DNP3"
    }
}

/// One shift of the reflected CRC-16/DNP register (polynomial 0xA6BC).
pub open spec fn crc_shift(c: u16) -> u16 {
    if c & 1 != 0 { (c >> 1) ^ 0xA6BC } else { c >> 1 }
}

/// `k` shifts of the CRC register.
pub open spec fn crc_shifts(c: u16, k: nat) -> u16
    decreases k,
{
    if k == 0 { c } else { crc_shift(crc_shifts(c, (k - 1) as nat)) }
}

/// The CRC register after feeding the bytes of `s`, starting from zero.
pub open spec fn crc_register(s: Seq<u8>) -> u16
    decreases s.len(),
{
    if s.len() == 0 {
        0
    } else {
        crc_shifts(crc_register(s.drop_last()) ^ (s.last() as u16), 8)
    }
}

/// CRC-16/DNP of `s`: the complemented register.
pub open spec fn crc_dnp_of(s: Seq<u8>) -> u16 {
    !crc_register(s)
}

/// Eight shifts of the CRC register, written out.
pub open spec fn crc_byte(c: u16) -> u16 {
    crc_shift(crc_shift(crc_shift(crc_shift(crc_shift(crc_shift(crc_shift(crc_shift(c))))))))
}

proof fn lemma_crc_push(s: Seq<u8>, b: u8)
    ensures
        crc_register(s.push(b)) == crc_byte(crc_register(s) ^ (b as u16)),
{
    assert(s.push(b).drop_last() =~= s);
    reveal_with_fuel(crc_shifts, 9);
}

/// The CRC-16/DNP check values: `0xEA82` for the ASCII digits `123456789`,
/// and `0xFFFF` for no data.
pub proof fn law_crc_dnp_check_value()
    ensures
        crc_dnp_of(seq![0x31u8, 0x32, 0x33, 0x34, 0x35, 0x36, 0x37, 0x38, 0x39]) == 0xEA82,
        crc_dnp_of(Seq::<u8>::empty()) == 0xFFFF,
{
    lemma_crc_push(Seq::<u8>::empty(), 0x31u8);
    assert(crc_byte(0x0000u16 ^ 0x31u16) == 0xad9au16) by (bit_vector);
    lemma_crc_push(Seq::<u8>::empty().push(0x31u8), 0x32u8);
    assert(crc_byte(0xad9au16 ^ 0x32u16) == 0x7037u16) by (bit_vector);
    lemma_crc_push(Seq::<u8>::empty().push(0x31u8).push(0x32u8), 0x33u8);
    assert(crc_byte(0x7037u16 ^ 0x33u16) == 0xd908u16) by (bit_vector);
    lemma_crc_push(Seq::<u8>::empty().push(0x31u8).push(0x32u8).push(0x33u8), 0x34u8);
    assert(crc_byte(0xd908u16 ^ 0x34u16) == 0xbdecu16) by (bit_vector);
    lemma_crc_push(Seq::<u8>::empty().push(0x31u8).push(0x32u8).push(0x33u8).push(0x34u8), 0x35u8);
    assert(crc_byte(0xbdecu16 ^ 0x35u16) == 0x8ee3u16) by (bit_vector);
    lemma_crc_push(Seq::<u8>::empty().push(0x31u8).push(0x32u8).push(0x33u8).push(0x34u8).push(0x35u8), 0x36u8);
    assert(crc_byte(0x8ee3u16 ^ 0x36u16) == 0xa821u16) by (bit_vector);
    lemma_crc_push(Seq::<u8>::empty().push(0x31u8).push(0x32u8).push(0x33u8).push(0x34u8).push(0x35u8).push(0x36u8), 0x37u8);
    assert(crc_byte(0xa821u16 ^ 0x37u16) == 0x0707u16) by (bit_vector);
    lemma_crc_push(Seq::<u8>::empty().push(0x31u8).push(0x32u8).push(0x33u8).push(0x34u8).push(0x35u8).push(0x36u8).push(0x37u8), 0x38u8);
    assert(crc_byte(0x0707u16 ^ 0x38u16) == 0xe7d0u16) by (bit_vector);
    lemma_crc_push(Seq::<u8>::empty().push(0x31u8).push(0x32u8).push(0x33u8).push(0x34u8).push(0x35u8).push(0x36u8).push(0x37u8).push(0x38u8), 0x39u8);
    assert(crc_byte(0xe7d0u16 ^ 0x39u16) == 0x157du16) by (bit_vector);
    assert(seq![0x31u8, 0x32, 0x33, 0x34, 0x35, 0x36, 0x37, 0x38, 0x39] =~= Seq::<u8>::empty().push(0x31u8).push(0x32u8).push(0x33u8).push(0x34u8).push(0x35u8).push(0x36u8).push(0x37u8).push(0x38u8).push(0x39u8));
    assert(!0x157du16 == 0xEA82u16) by (bit_vector);
    assert(!0u16 == 0xFFFFu16) by (bit_vector);
}

/// CRC-16/DNP checksum of `data`.
pub fn crc_dnp(data: &[u8]) -> (r: u16)
    ensures
        r == crc_dnp_of(data@),
{
    let mut crc: u16 = 0;
    let mut i: usize = 0;
    while i < data.len()
        invariant
            i <= data@.len(),
            crc == crc_register(data@.subrange(0, i as int)),
        decreases data@.len() - i,
    {
        let start = crc ^ (data[i] as u16);
        crc = start;
        let mut k: usize = 0;
        while k < 8
            invariant
                k <= 8,
                crc == crc_shifts(start, k as nat),
            decreases 8 - k,
        {
            if crc & 1 != 0 {
                crc = (crc >> 1) ^ 0xA6BC;
            } else {
                crc = crc >> 1;
            }
            k = k + 1;
        }
        proof {
            let s = data@.subrange(0, i + 1);
            assert(s.drop_last() =~= data@.subrange(0, i as int));
        }
        i = i + 1;
    }
    assert(data@.subrange(0, data@.len() as int) =~= data@);
    !crc
}

/// The data-link header of a Class 0 read to outstation `dest` from
/// master 1, before its CRC.
pub open spec fn dnp3_link_header(dest: u16) -> Seq<u8> {
    seq![0x05u8, 0x64, 0x0C, 0xC4, (dest % 256) as u8, (dest / 256) as u8, 0x01, 0x00]
}

/// The Class 0 read request to outstation `dest`: link header, the CRC of
/// its last six bytes (little-endian), then transport, application and
/// object headers.
pub open spec fn dnp3_request(dest: u16) -> Seq<u8> {
    let h = dnp3_link_header(dest);
    let crc = crc_dnp_of(h.subrange(2, 8));
    h + seq![(crc % 256) as u8, (crc / 256) as u8] + seq![0xC0u8, 0x02, 0x01, 0x3C, 0x02, 0x01, 0x02, 0x06, 0x00]
}

/// A Class 0 read request starts with 0x05 0x64, names outstation `dest`
/// (little-endian, bytes 4-5) and master 1 (bytes 6-7), carries the
/// CRC-16/DNP of link-header bytes 2-7 little-endian at bytes 8-9, and ends
/// with the transport, application (READ) and class 0 object headers.
pub proof fn law_request_layout(dest: u16)
    ensures
        ({
            let r = dnp3_request(dest);
            &&& r.len() == 19
            &&& r[0] == 0x05 && r[1] == 0x64
            &&& r[4] + 256 * r[5] == dest
            &&& r[6] + 256 * r[7] == 1
            &&& r[8] + 256 * r[9] == crc_dnp_of(r.subrange(2, 8))
            &&& r.subrange(10, 19) == seq![0xC0u8, 0x02, 0x01, 0x3C, 0x02, 0x01, 0x02, 0x06, 0x00]
        }),
{
    let r = dnp3_request(dest);
    let h = dnp3_link_header(dest);
    assert(r.subrange(2, 8) =~= h.subrange(2, 8));
    assert(r.subrange(10, 19) =~= seq![0xC0u8, 0x02, 0x01, 0x3C, 0x02, 0x01, 0x02, 0x06, 0x00]);
}

/// Builds the Class 0 read request to outstation `dest`.
pub fn build_dnp3_request(dest: u16) -> (r: Vec<u8>)
    ensures
        r@ == dnp3_request(dest),
{
    let mut frame: Vec<u8> = Vec::new();
    frame.push(0x05);
    frame.push(0x64);
    frame.push(0x0C);
    frame.push(0xC4);
    frame.push((dest % 256) as u8);
    frame.push((dest / 256) as u8);
    frame.push(0x01);
    frame.push(0x00);
    assert(frame@ =~= dnp3_link_header(dest));
    let crc = crc_dnp(&frame.as_slice()[2..8]);
    frame.push((crc % 256) as u8);
    frame.push((crc / 256) as u8);
    frame.push(0xC0);
    frame.push(0x02);
    frame.push(0x01);
    frame.push(0x3C);
    frame.push(0x02);
    frame.push(0x01);
    frame.push(0x02);
    frame.push(0x06);
    frame.push(0x00);
    assert(frame@ =~= dnp3_request(dest));
    frame
}

/// One value found in a DNP3 response: the index of the data point it
/// belongs to, and the value, to which the point's coefficient and offset
/// apply like to every reading (a binary input reads as 1 or 0 first).
#[derive(Debug, Clone, Copy, PartialEq, Eq, Structural)]
pub struct DnpReading {
    pub point: usize,
    pub value: RawValue,
}

/// Little-endian 32-bit value of the four bytes of `b` at `at`.
pub open spec fn le32_at(b: Seq<u8>, at: int) -> u32 {
    (b[at] + b[at + 1] * 256 + b[at + 2] * 65536 + b[at + 3] * 16777216) as u32
}

/// Analog readings of a group-30 object at `pos`: the first `k` points,
/// four bytes each, as float bit patterns.
pub open spec fn analog_run(b: Seq<u8>, pos: int, k: int) -> Seq<DnpReading> {
    Seq::new(k as nat, |i: int| DnpReading { point: i as usize, value: RawValue::Float32(le32_at(b, pos + 4 * i)) })
}

/// Binary readings of a group-1 object at `pos`: `k` flags, each credited
/// to the first point (where there is one).
pub open spec fn binary_run(b: Seq<u8>, pos: int, k: int, points: nat) -> Seq<DnpReading> {
    if points == 0 {
        seq![]
    } else {
        Seq::new(k as nat, |i: int| DnpReading { point: 0, value: RawValue::Flag(b[pos + i] >= 128) })
    }
}

/// The smaller of two integers.
pub open spec fn min(a: int, b: int) -> int {
    if a < b { a } else { b }
}

/// The readings of the objects from `pos` on, for a device with `points`
/// data points. Each object header is group, variation, qualifier. Group 30
/// (analog input) holds `qualifier & 0x7F` values when bit 0x80 is set,
/// else one, read as far as both the points and the buffer reach; group 1
/// (binary input) holds `qualifier & 0x7F` one-byte flags, read as far as
/// the buffer reaches. Any other group ends the scan.
pub open spec fn dnp3_objects(b: Seq<u8>, pos: int, points: nat) -> Seq<DnpReading>
    decreases b.len() - pos,
{
    if pos < 0 || pos + 3 >= b.len() {
        seq![]
    } else {
        let group = b[pos];
        let qual = b[pos + 2];
        let p = pos + 3;
        if group == 30 {
            let count: int = if qual >= 128 { qual - 128 } else { 1 };
            let k = min(min(count, points as int), (b.len() - p) / 4);
            analog_run(b, p, k) + dnp3_objects(b, p + 4 * k, points)
        } else if group == 1 {
            let k = min((qual % 128) as int, b.len() - p);
            binary_run(b, p, k, points) + dnp3_objects(b, p + k, points)
        } else {
            seq![]
        }
    }
}

/// The readings of a DNP3 response, for a device with `points` data
/// points: objects start after the ten header bytes; a response shorter
/// than twelve bytes has none.
pub open spec fn dnp3_readings(b: Seq<u8>, points: nat) -> Seq<DnpReading> {
    if b.len() < 12 { seq![] } else { dnp3_objects(b, 10, points) }
}

/// A response whose one object is a group-1 binary input with the flag
/// bytes `flags` (its qualifier counting them) reads, for a device with
/// points, one reading of the first point per flag byte, on exactly when
/// the byte's STATE bit 0x80 is set: a flag byte `0x01` (ONLINE only)
/// reads off, `0x81` reads on.
pub proof fn law_binary_input_state_bit(header: Seq<u8>, variation: u8, qualifier: u8, flags: Seq<u8>, points: nat)
    requires
        header.len() == 10,
        flags.len() == qualifier % 128,
        points >= 1,
    ensures
        dnp3_readings(header + seq![1u8, variation, qualifier] + flags, points)
            == Seq::new(flags.len(), |i: int| DnpReading { point: 0, value: RawValue::Flag(flags[i] >= 0x80) }),
{
    let b = header + seq![1u8, variation, qualifier] + flags;
    let k = flags.len() as int;
    assert(b[10] == 1 && b[12] == qualifier);
    assert(dnp3_objects(b, 13 + k, points) == Seq::<DnpReading>::empty());
    assert(min((qualifier % 128) as int, b.len() - 13) == k);
    let run = binary_run(b, 13, k, points);
    assert(run =~= Seq::new(flags.len(), |i: int| DnpReading { point: 0, value: RawValue::Flag(flags[i] >= 0x80) })) by {
        assert forall|i: int| 0 <= i < k implies b[13 + i] == flags[i] by {}
    }
    assert(dnp3_objects(b, 10, points) =~= run + dnp3_objects(b, 13 + k, points));
}

/// A response whose one object is a group-30 analog input with the
/// range bit set in its qualifier and `k` values (the qualifier's low seven
/// bits), for a device with at least `k` points, reads value `i` as point
/// `i`: the IEEE-754 pattern of its four bytes, least significant first.
pub proof fn law_analog_input_values(header: Seq<u8>, variation: u8, qualifier: u8, data: Seq<u8>, points: nat)
    requires
        header.len() == 10,
        qualifier >= 0x80,
        data.len() == 4 * (qualifier - 0x80),
        points >= qualifier - 0x80,
    ensures
        dnp3_readings(header + seq![30u8, variation, qualifier] + data, points)
            == Seq::new((qualifier - 0x80) as nat, |i: int| DnpReading {
                point: i as usize,
                value: RawValue::Float32((data[4 * i] + data[4 * i + 1] * 0x100 + data[4 * i + 2] * 0x1_0000
                    + data[4 * i + 3] * 0x100_0000) as u32),
            }),
{
    let b = header + seq![30u8, variation, qualifier] + data;
    let k = qualifier - 0x80;
    assert(b[10] == 30 && b[12] == qualifier);
    assert((b.len() - 13) / 4 == k);
    assert(min(min(k as int, points as int), (b.len() - 13) / 4) == k);
    assert(dnp3_objects(b, 13 + 4 * k, points) == Seq::<DnpReading>::empty());
    let run = analog_run(b, 13, k as int);
    assert(run =~= Seq::new(k as nat, |i: int| DnpReading {
        point: i as usize,
        value: RawValue::Float32((data[4 * i] + data[4 * i + 1] * 0x100 + data[4 * i + 2] * 0x1_0000
            + data[4 * i + 3] * 0x100_0000) as u32),
    })) by {
        assert forall|i: int| 0 <= i < k implies #[trigger] run[i] == DnpReading {
            point: i as usize,
            value: RawValue::Float32((data[4 * i] + data[4 * i + 1] * 0x100 + data[4 * i + 2] * 0x1_0000
                + data[4 * i + 3] * 0x100_0000) as u32),
        } by {
            assert(b[13 + 4 * i + 0] == data[4 * i + 0]);
            assert(b[13 + 4 * i + 1] == data[4 * i + 1]);
            assert(b[13 + 4 * i + 2] == data[4 * i + 2]);
            assert(b[13 + 4 * i + 3] == data[4 * i + 3]);
        }
    }
    assert(dnp3_objects(b, 10, points) =~= run + dnp3_objects(b, 13 + 4 * k, points));
}

/// The readings of a DNP3 response, in the order they occur; a later
/// reading of the same point replaces an earlier one.
pub fn parse_dnp3_response(buf: &[u8], points: usize) -> (r: Vec<DnpReading>)
    ensures
        r@ == dnp3_readings(buf@, points as nat),
{
    let mut out: Vec<DnpReading> = Vec::new();
    let n = buf.len();
    if n < 12 {
        return out;
    }
    let mut pos: usize = 10;
    while n - pos > 3
        invariant
            n == buf@.len(),
            pos <= n,
            out@ + dnp3_objects(buf@, pos as int, points as nat) == dnp3_readings(buf@, points as nat),
        decreases n - pos,
    {
        let group = buf[pos];
        let qual = buf[pos + 2];
        let p = pos + 3;
        if group == 30 {
            let count: usize = if qual >= 128 {
                (qual - 128) as usize
            } else {
                1
            };
            let limit = if count < points {
                count
            } else {
                points
            };
            let mut i: usize = 0;
            let mut q: usize = p;
            let ghost k = min(min(count as int, points as int), (n - p) / 4);
            let ghost before = out@;
            while i < limit && n - q >= 4
                invariant
                    n == buf@.len(),
                    p <= q <= n,
                    i <= limit,
                    q == p + 4 * i,
                    k == min(min(count as int, points as int), (n - p) / 4),
                    limit as int == min(count as int, points as int),
                    i <= k,
                    out@ == before + analog_run(buf@, p as int, i as int),
                decreases limit - i,
            {
                let bits = be32_of(buf[q + 3], buf[q + 2], buf[q + 1], buf[q]);
                out.push(DnpReading { point: i, value: RawValue::Float32(bits) });
                proof {
                    assert(out@ =~= before + analog_run(buf@, p as int, i + 1));
                }
                i = i + 1;
                q = q + 4;
            }
            assert(i as int == k);
            assert(dnp3_objects(buf@, pos as int, points as nat) == analog_run(buf@, p as int, k) + dnp3_objects(buf@, q as int, points as nat));
            assert(out@ + dnp3_objects(buf@, q as int, points as nat) =~= before + dnp3_objects(buf@, pos as int, points as nat));
            pos = q;
        } else if group == 1 {
            let count = (qual % 128) as usize;
            let k: usize = if count < n - p {
                count
            } else {
                n - p
            };
            let ghost before = out@;
            if points > 0 {
                let mut i: usize = 0;
                while i < k
                    invariant
                        n == buf@.len(),
                        p + k <= n,
                        i <= k,
                        points > 0,
                        out@ == before + binary_run(buf@, p as int, i as int, points as nat),
                    decreases k - i,
                {
                    out.push(DnpReading { point: 0, value: RawValue::Flag(buf[p + i] >= 128) });
                    proof {
                        assert(out@ =~= before + binary_run(buf@, p as int, i + 1, points as nat));
                    }
                    i = i + 1;
                }
            } else {
                assert(out@ =~= before + binary_run(buf@, p as int, k as int, points as nat));
            }
            assert(out@ + dnp3_objects(buf@, (p + k) as int, points as nat) =~= before + dnp3_objects(buf@, pos as int, points as nat));
            pos = p + k;
        } else {
            assert(out@ =~= out@ + dnp3_objects(buf@, pos as int, points as nat));
            return out;
        }
    }
    assert(out@ =~= out@ + dnp3_objects(buf@, pos as int, points as nat));
    out
}

} // verus!

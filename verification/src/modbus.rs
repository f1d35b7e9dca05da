use vstd::prelude::*;
use crate::bytes::{RawValue, be16, be16_of, be32, be32_of, be64, be64_of, i16_of, i32_of, signed16, signed32};
use crate::model::DataPoint;
use crate::text::{decimal_chars, is_digit, lemma_decimal_chars_value, parse_unsigned, parsed_unsigned, text_eq};

verus! {

/// Unit struct naming the Modbus RTU driver.
#[derive(Debug, Clone, Copy, PartialEq, Eq, Structural)]
pub struct ModbusRTUDriver;

impl ModbusRTUDriver {
    /// The driver.
    pub fn new() -> (r: Self)
        ensures
            r == ModbusRTUDriver,
    {
        ModbusRTUDriver
    }

    /// The protocol's name as the logs show it.
    pub fn protocol_name(&self) -> (r: &'static str)
        ensures
            r@ == "Modbus RTU"@,
    {
        "Modbus RTU"
    }
}

/// Unit struct naming the Modbus TCP driver.
#[derive(Debug, Clone, Copy, PartialEq, Eq, Structural)]
pub struct ModbusTCPDriver;

impl ModbusTCPDriver {
    /// The driver.
    pub fn new() -> (r: Self)
        ensures
            r == ModbusTCPDriver,
    {
        ModbusTCPDriver
    }

    /// The protocol's name as the logs show it.
    pub fn protocol_name(&self) -> (r: &'static str)
        ensures
            r@ == "Modbus TCP"@,
    {
        "Modbus TCP"
    }
}

/// Byte orders that put the low byte of each register first.
pub open spec fn low_byte_first(order: Seq<char>) -> bool {
    ||| order == "little_endian"@
    ||| order == "DCBA"@
    ||| order == "mid_little"@
    ||| order == "BADC"@
}

/// The bytes of a run of registers, two per register; the high byte comes
/// first unless `swap` holds.
pub open spec fn register_bytes(words: Seq<u16>, swap: bool) -> Seq<u8> {
    Seq::new(
        2 * words.len(),
        |k: int|
            if (k % 2 == 0) != swap {
                (words[k / 2] / 256) as u8
            } else {
                (words[k / 2] % 256) as u8
            },
    )
}

/// The first register, or 0 when there is none.
pub open spec fn first_word(words: Seq<u16>) -> u16 {
    if words.len() > 0 { words[0] } else { 0 }
}

/// The value that registers `words`, read in byte order `order`, hold for
/// data type `dtype`.
pub open spec fn modbus_value(words: Seq<u16>, order: Seq<char>, dtype: Seq<char>) -> RawValue {
    let b = register_bytes(words, low_byte_first(order));
    let first = first_word(words);
    if dtype == "float32"@ {
        if b.len() >= 4 { RawValue::Float32(be32(b[0], b[1], b[2], b[3]) as u32) } else { RawValue::Unsigned(0) }
    } else if dtype == "float64"@ {
        if b.len() >= 8 { RawValue::Float64(be64(b) as u64) } else { RawValue::Unsigned(0) }
    } else if dtype == "int16"@ {
        if b.len() >= 2 {
            RawValue::Signed(signed16(be16(b[0], b[1])) as i64)
        } else {
            RawValue::Signed(signed16(first as int) as i64)
        }
    } else if dtype == "uint16"@ {
        RawValue::Unsigned(first as u64)
    } else if dtype == "int32"@ {
        if b.len() >= 4 { RawValue::Signed(signed32(be32(b[0], b[1], b[2], b[3])) as i64) } else { RawValue::Unsigned(0) }
    } else if dtype == "uint32"@ {
        if b.len() >= 4 { RawValue::Unsigned(be32(b[0], b[1], b[2], b[3]) as u64) } else { RawValue::Unsigned(0) }
    } else if dtype == "bool"@ {
        RawValue::Flag(first != 0)
    } else {
        RawValue::Unsigned(first as u64)
    }
}

/// Each register becomes two bytes in place: register `i` gives bytes `2i`
/// and `2i + 1`, high byte first, or low byte first where `swap` holds.
pub proof fn law_register_bytes_in_place(words: Seq<u16>, swap: bool, i: int)
    requires
        0 <= i < words.len(),
    ensures
        register_bytes(words, swap).len() == 2 * words.len(),
        !swap ==> register_bytes(words, swap)[2 * i] * 256 + register_bytes(words, swap)[2 * i + 1] == words[i],
        swap ==> register_bytes(words, swap)[2 * i + 1] * 256 + register_bytes(words, swap)[2 * i] == words[i],
{
    assert((2 * i) / 2 == i && (2 * i) % 2 == 0);
    assert((2 * i + 1) / 2 == i && (2 * i + 1) % 2 == 1);
    assert(words[i] / 256 * 256 + words[i] % 256 == words[i]);
}

/// The bytes of `words` in the given order.
pub fn registers_to_bytes(words: &[u16], swap: bool) -> (r: Vec<u8>)
    requires
        words@.len() <= usize::MAX / 2,
    ensures
        r@ == register_bytes(words@, swap),
{
    let mut out: Vec<u8> = Vec::new();
    let mut i: usize = 0;
    while i < words.len()
        invariant
            i <= words@.len(),
            words@.len() <= usize::MAX / 2,
            out@ == register_bytes(words@.subrange(0, i as int), swap),
        decreases words@.len() - i,
    {
        let w = words[i];
        let hi = (w / 256) as u8;
        let lo = (w % 256) as u8;
        let ghost before = out@;
        if swap {
            out.push(lo);
            out.push(hi);
        } else {
            out.push(hi);
            out.push(lo);
        }
        proof {
            let next = words@.subrange(0, i + 1);
            let prev = words@.subrange(0, i as int);
            assert forall|k: int| 0 <= k < 2 * next.len() implies #[trigger] out@[k] == register_bytes(next, swap)[k] by {
                if k < 2 * i {
                    assert(k / 2 < i);
                    assert(next[k / 2] == prev[k / 2]);
                    assert(out@[k] == before[k]);
                } else if k == 2 * i {
                    assert(k / 2 == i as int);
                    assert(k % 2 == 0);
                } else {
                    assert(k / 2 == i as int);
                    assert(k % 2 == 1);
                }
            }
            assert(out@ =~= register_bytes(next, swap));
        }
        i = i + 1;
    }
    assert(words@.subrange(0, words@.len() as int) =~= words@);
    out
}

/// Decodes a run of Modbus registers into a value of the point's data type.
pub fn decode_modbus_value(words: &[u16], byte_order: &str, dtype: &str) -> (r: RawValue)
    requires
        words@.len() <= usize::MAX / 2,
    ensures
        r == modbus_value(words@, byte_order@, dtype@),
{
    let swap = text_eq(byte_order, "little_endian") || text_eq(byte_order, "DCBA") || text_eq(
        byte_order,
        "mid_little",
    ) || text_eq(byte_order, "BADC");
    let b = registers_to_bytes(words, swap);
    let first: u16 = if words.len() > 0 {
        words[0]
    } else {
        0
    };
    if text_eq(dtype, "float32") {
        if b.len() >= 4 {
            RawValue::Float32(be32_of(b[0], b[1], b[2], b[3]))
        } else {
            RawValue::Unsigned(0)
        }
    } else if text_eq(dtype, "float64") {
        if b.len() >= 8 {
            RawValue::Float64(be64_of(b.as_slice()))
        } else {
            RawValue::Unsigned(0)
        }
    } else if text_eq(dtype, "int16") {
        if b.len() >= 2 {
            RawValue::Signed(i16_of(b[0], b[1]) as i64)
        } else {
            let s: i16 = if first >= 32768 {
                (first as i32 - 65536) as i16
            } else {
                first as i16
            };
            RawValue::Signed(s as i64)
        }
    } else if text_eq(dtype, "uint16") {
        RawValue::Unsigned(first as u64)
    } else if text_eq(dtype, "int32") {
        if b.len() >= 4 {
            RawValue::Signed(i32_of(b[0], b[1], b[2], b[3]) as i64)
        } else {
            RawValue::Unsigned(0)
        }
    } else if text_eq(dtype, "uint32") {
        if b.len() >= 4 {
            RawValue::Unsigned(be32_of(b[0], b[1], b[2], b[3]) as u64)
        } else {
            RawValue::Unsigned(0)
        }
    } else if text_eq(dtype, "bool") {
        RawValue::Flag(first != 0)
    } else {
        RawValue::Unsigned(first as u64)
    }
}

/// Which Modbus read a point uses.
#[derive(Debug, Clone, Copy, PartialEq, Eq, Structural)]
pub enum ModbusRead {
    /// Function codes 1 and 2: read coils.
    Coils,
    /// Every other function code: read holding registers.
    HoldingRegisters,
}

/// One Modbus read request for a point.
#[derive(Debug, Clone, Copy, PartialEq, Eq, Structural)]
pub struct ModbusRequest {
    pub function: u8,
    pub read: ModbusRead,
    pub address: u16,
    pub count: u16,
}

/// The function code of a point: its decimal text, or 3 where the text
/// does not parse as a byte.
pub open spec fn function_code_of(text: Seq<char>) -> u8 {
    match parsed_unsigned(text, 255) {
        Some(v) => v as u8,
        None => 3,
    }
}

/// The read that polls point `p`.
pub open spec fn modbus_request_of(p: DataPoint) -> ModbusRequest {
    let f = function_code_of(p.func_code@);
    ModbusRequest {
        function: f,
        read: if f == 1 || f == 2 { ModbusRead::Coils } else { ModbusRead::HoldingRegisters },
        address: p.register_address,
        count: if p.register_count >= 1 { p.register_count } else { 1 },
    }
}

/// A point whose function code is the decimal text of a code `f` reads
/// with that code: coils (and discrete inputs) for codes 1 and 2, registers
/// otherwise, at the point's register address, and as many registers as the
/// point has (at least one). Text that is not a code reads holding
/// registers.
pub proof fn law_request_follows_point(p: DataPoint, f: u8)
    ensures
        p.func_code@ == decimal_chars(f as nat) ==> modbus_request_of(p).function == f,
        p.func_code@ == decimal_chars(f as nat) ==> (modbus_request_of(p).read == ModbusRead::Coils) == (f == 1 || f == 2),
        parsed_unsigned(p.func_code@, 255) is None ==> modbus_request_of(p).function == 3
            && modbus_request_of(p).read == ModbusRead::HoldingRegisters,
        modbus_request_of(p).address == p.register_address,
        modbus_request_of(p).count >= 1,
        p.register_count >= 1 ==> modbus_request_of(p).count == p.register_count,
{
    lemma_decimal_chars_value(f as nat);
    let d = decimal_chars(f as nat);
    assert(d[0] != '+') by {
        assert(is_digit(d[0]));
    }
}

/// Plans the Modbus read of one point: function code, kind of read,
/// start address, and at least one register.
pub fn modbus_request(p: &DataPoint) -> (r: ModbusRequest)
    ensures
        r == modbus_request_of(*p),
{
    let f: u8 = match parse_unsigned(p.func_code.as_str(), 255) {
        Some(v) => v as u8,
        None => 3,
    };
    let read = if f == 1 || f == 2 {
        ModbusRead::Coils
    } else {
        ModbusRead::HoldingRegisters
    };
    let count = if p.register_count >= 1 {
        p.register_count
    } else {
        1
    };
    ModbusRequest { function: f, read, address: p.register_address, count }
}

/// Coil states as registers: 1 for a set coil, 0 otherwise.
pub fn coils_to_words(coils: &[bool]) -> (r: Vec<u16>)
    ensures
        r@.len() == coils@.len(),
        forall|i: int| 0 <= i < coils@.len() ==> #[trigger] r@[i] == if coils@[i] { 1u16 } else { 0u16 },
{
    let mut out: Vec<u16> = Vec::new();
    let mut i: usize = 0;
    while i < coils.len()
        invariant
            i <= coils@.len(),
            out@.len() == i,
            forall|j: int| 0 <= j < i ==> #[trigger] out@[j] == if coils@[j] { 1u16 } else { 0u16 },
        decreases coils@.len() - i,
    {
        out.push(if coils[i] { 1u16 } else { 0u16 });
        i = i + 1;
    }
    out
}


/// A register with its two bytes exchanged.
pub open spec fn byte_swapped(w: u16) -> int {
    (w % 256) * 256 + w / 256
}

/// Byte order of multi-register values: in big-endian orders the first
/// register is the high word and each register reads high byte first, so
/// two registers `w0, w1` hold `w0 * 65536 + w1` as `uint32` and one
/// register `w` holds `w` as `uint16` and its two's-complement reading as
/// `int16`; in the low-byte-first orders each register's bytes are exchanged
/// first. The same 32 bits read as `int32` give their two's-complement
/// value, and as `float32` the IEEE-754 pattern; one register reads as
/// `bool` on exactly when it is non-zero.
pub proof fn law_register_byte_order(w0: u16, w1: u16, order: Seq<char>)
    ensures
        modbus_value(seq![w0, w1], order, "uint32"@) == RawValue::Unsigned(
            (if low_byte_first(order) { byte_swapped(w0) * 65536 + byte_swapped(w1) } else { w0 * 65536 + w1 }) as u64,
        ),
        modbus_value(seq![w0, w1], order, "int32"@) == RawValue::Signed(
            signed32(if low_byte_first(order) { byte_swapped(w0) * 65536 + byte_swapped(w1) } else { w0 * 65536 + w1 }) as i64,
        ),
        modbus_value(seq![w0, w1], order, "float32"@) == RawValue::Float32(
            (if low_byte_first(order) { byte_swapped(w0) * 65536 + byte_swapped(w1) } else { w0 * 65536 + w1 }) as u32,
        ),
        modbus_value(seq![w0], order, "bool"@) == RawValue::Flag(w0 != 0),
        modbus_value(seq![w0], order, "uint16"@) == RawValue::Unsigned(w0 as u64),
        modbus_value(seq![w0], order, "int16"@) == RawValue::Signed(
            signed16(if low_byte_first(order) { byte_swapped(w0) } else { w0 as int }) as i64,
        ),
{
    reveal_strlit("uint32");
    reveal_strlit("uint16");
    reveal_strlit("int16");
    reveal_strlit("int32");
    reveal_strlit("float32");
    reveal_strlit("float64");
    reveal_strlit("bool");
    assert("bool"@.len() == 4);
    assert(w0 / 256 * 256 + w0 % 256 == w0);
    assert(w1 / 256 * 256 + w1 % 256 == w1);
    assert("uint16"@.len() == 6 && "int16"@.len() == 5 && "float32"@.len() == 7 && "float64"@.len() == 7);
    assert("uint32"@.len() == 6 && "int32"@.len() == 5 && "uint32"@[4] != "uint16"@[4]);
    assert("int32"@[3] != "int16"@[3] && "float32"@[5] != "float64"@[5]);
    assert(first_word(seq![w0]) == w0);
    let swap = low_byte_first(order);
    let b2 = register_bytes(seq![w0, w1], swap);
    let b1 = register_bytes(seq![w0], swap);
    assert(b2.len() == 4);
    assert(b1.len() == 2);
    assert(0int / 2 == 0 && 1int / 2 == 0 && 2int / 2 == 1 && 3int / 2 == 1);
    assert(seq![w0, w1][0] == w0 && seq![w0, w1][1] == w1);
    if swap {
        assert(b2[0] == w0 % 256 && b2[1] == w0 / 256 && b2[2] == w1 % 256 && b2[3] == w1 / 256);
        assert(b1[0] == w0 % 256 && b1[1] == w0 / 256);
    } else {
        assert(b2[0] == w0 / 256 && b2[1] == w0 % 256 && b2[2] == w1 / 256 && b2[3] == w1 % 256);
        assert(b1[0] == w0 / 256 && b1[1] == w0 % 256);
    }
}

/// A register as it reads in byte order `order`: as it is, or with its two
/// bytes exchanged in the low-byte-first orders.
pub open spec fn ordered_word(w: u16, order: Seq<char>) -> int {
    if low_byte_first(order) { byte_swapped(w) } else { w as int }
}

/// Four registers read as `float64` give the IEEE-754 pattern whose 16-bit
/// quarters are the registers in order, most significant first.
pub proof fn law_float64_registers(w0: u16, w1: u16, w2: u16, w3: u16, order: Seq<char>)
    ensures
        modbus_value(seq![w0, w1, w2, w3], order, "float64"@) == RawValue::Float64(
            (ordered_word(w0, order) * 0x1_0000_0000_0000 + ordered_word(w1, order) * 0x1_0000_0000
                + ordered_word(w2, order) * 0x1_0000 + ordered_word(w3, order)) as u64,
        ),
{
    reveal_strlit("float32");
    reveal_strlit("float64");
    assert("float32"@.len() == 7 && "float64"@.len() == 7 && "float32"@[5] != "float64"@[5]);
    let ws = seq![w0, w1, w2, w3];
    let swap = low_byte_first(order);
    let b = register_bytes(ws, swap);
    assert(b.len() == 8);
    assert(0int / 2 == 0 && 1int / 2 == 0 && 2int / 2 == 1 && 3int / 2 == 1);
    assert(4int / 2 == 2 && 5int / 2 == 2 && 6int / 2 == 3 && 7int / 2 == 3);
    assert(ws[0] == w0 && ws[1] == w1 && ws[2] == w2 && ws[3] == w3);
    assert(w0 / 256 * 256 + w0 % 256 == w0);
    assert(w1 / 256 * 256 + w1 % 256 == w1);
    assert(w2 / 256 * 256 + w2 % 256 == w2);
    assert(w3 / 256 * 256 + w3 % 256 == w3);
    if swap {
        assert(b[0] == w0 % 256 && b[1] == w0 / 256 && b[2] == w1 % 256 && b[3] == w1 / 256);
        assert(b[4] == w2 % 256 && b[5] == w2 / 256 && b[6] == w3 % 256 && b[7] == w3 / 256);
    } else {
        assert(b[0] == w0 / 256 && b[1] == w0 % 256 && b[2] == w1 / 256 && b[3] == w1 % 256);
        assert(b[4] == w2 / 256 && b[5] == w2 % 256 && b[6] == w3 / 256 && b[7] == w3 % 256);
    }
}

} // verus!

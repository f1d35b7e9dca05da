use vstd::prelude::*;
use crate::model::{BusType, ProtocolType};
use crate::text::{decimal_chars, push_decimal, text_eq};

verus! {

/// The protocols offered for manual tests, with their labels.
pub open spec fn protocol_option_list() -> Seq<(Seq<char>, ProtocolType)> {
    seq![
        ("Modbus RTU"@, ProtocolType::ModbusRTU),
        ("Modbus TCP"@, ProtocolType::ModbusTCP),
        ("DL/T645-2007"@, ProtocolType::DL645_2007),
        ("DL/T645-1997"@, ProtocolType::DL645_1997),
        ("IEC 60870-5-101"@, ProtocolType::IEC101),
        ("IEC 60870-5-104"@, ProtocolType::IEC104),
        ("DNP3"@, ProtocolType::DNP3),
        ("OPC UA"@, ProtocolType::OpcUa),
        ("BACnet/IP"@, ProtocolType::BacnetIP),
        ("S7 Communication"@, ProtocolType::S7Comm),
        ("FINS TCP"@, ProtocolType::FinsTcp),
        ("EtherNet/IP"@, ProtocolType::EthernetIP),
        ("Mitsubishi MC"@, ProtocolType::MitsubishiMC),
    ]
}
/// The protocols offered for manual tests, with their labels.
pub fn protocol_options() -> (r: Vec<(String, ProtocolType)>)
    ensures
        r@.len() == protocol_option_list().len(),
        forall|i: int| 0 <= i < r@.len() ==> (#[trigger] r@[i]).0@ == protocol_option_list()[i].0
            && r@[i].1 == protocol_option_list()[i].1,
{
    let mut v: Vec<(String, ProtocolType)> = Vec::new();
    v.push((String::from_str("Modbus RTU"), ProtocolType::ModbusRTU));
    v.push((String::from_str("Modbus TCP"), ProtocolType::ModbusTCP));
    v.push((String::from_str("DL/T645-2007"), ProtocolType::DL645_2007));
    v.push((String::from_str("DL/T645-1997"), ProtocolType::DL645_1997));
    v.push((String::from_str("IEC 60870-5-101"), ProtocolType::IEC101));
    v.push((String::from_str("IEC 60870-5-104"), ProtocolType::IEC104));
    v.push((String::from_str("DNP3"), ProtocolType::DNP3));
    v.push((String::from_str("OPC UA"), ProtocolType::OpcUa));
    v.push((String::from_str("BACnet/IP"), ProtocolType::BacnetIP));
    v.push((String::from_str("S7 Communication"), ProtocolType::S7Comm));
    v.push((String::from_str("FINS TCP"), ProtocolType::FinsTcp));
    v.push((String::from_str("EtherNet/IP"), ProtocolType::EthernetIP));
    v.push((String::from_str("Mitsubishi MC"), ProtocolType::MitsubishiMC));
    v
}

/// Every manual-test option is labelled with its protocol's display name.
pub proof fn law_option_labels_are_display_names(i: int)
    requires
        0 <= i < protocol_option_list().len(),
    ensures
        protocol_option_list()[i].0 == protocol_option_list()[i].1.display_text(),
{
}

/// A short description of a bus: `{port} @{baud}` or `{host}:{port}`.
pub open spec fn bus_short_of(bus: BusType) -> Seq<char> {
    match bus {
        BusType::Serial { port_name, bus_param } => port_name@ + " @"@ + decimal_chars(bus_param.baud as nat),
        BusType::Tcp { host, port } => host@ + ":"@ + decimal_chars(port as nat),
    }
}

/// Short form of a bus: `port @baud` or `host:port`.
pub fn bus_short(bus: &BusType) -> (r: String)
    ensures
        r@ == bus_short_of(*bus),
{
    match bus {
        BusType::Serial { port_name, bus_param } => {
            let mut s = port_name.clone().concat(" @");
            push_decimal(&mut s, bus_param.baud as u64);
            s
        },
        BusType::Tcp { host, port } => {
            let mut s = host.clone().concat(":");
            push_decimal(&mut s, *port as u64);
            s
        },
    }
}

/// The one-letter form of a parity name (`none`, `even`, `odd`, `mark`,
/// `space`, or the letter itself); any other text stays as it is.
pub open spec fn parity_letter(p: Seq<char>) -> Seq<char> {
    if p == "none"@ || p == "N"@ {
        "N"@
    } else if p == "even"@ || p == "E"@ {
        "E"@
    } else if p == "odd"@ || p == "O"@ {
        "O"@
    } else if p == "mark"@ || p == "M"@ {
        "M"@
    } else if p == "space"@ || p == "S"@ {
        "S"@
    } else {
        p
    }
}

/// One-letter form of a parity name; other names are shown as they are.
pub fn parity_display<'a>(p: &'a str) -> (r: &'a str)
    ensures
        r@ == parity_letter(p@),
{
    if text_eq(p, "none") || text_eq(p, "N") {
        "N"
    } else if text_eq(p, "even") || text_eq(p, "E") {
        "E"
    } else if text_eq(p, "odd") || text_eq(p, "O") {
        "O"
    } else if text_eq(p, "mark") || text_eq(p, "M") {
        "M"
    } else if text_eq(p, "space") || text_eq(p, "S") {
        "S"
    } else {
        p
    }
}

/// `s` cut to `max` characters: longer text keeps its first `max - 1`
/// characters and gets an ellipsis.
pub open spec fn truncated(s: Seq<char>, max: nat) -> Seq<char> {
    if s.len() > max {
        s.subrange(0, max - 1) + "…"@
    } else {
        s
    }
}

/// Shortens a text to `max` characters, the last one an ellipsis, where it is longer.
pub fn truncate(s: &str, max: usize) -> (r: String)
    requires
        max > 0 || s@.len() == 0,
    ensures
        r@ == truncated(s@, max as nat),
{
    let n = s.unicode_len();
    if n > max {
        String::from_str(s.substring_char(0, max - 1)).concat("…")
    } else {
        String::from_str(s)
    }
}

/// A truncated text is never longer than the limit: a text within it stays
/// as it is; a longer one keeps its first `max - 1` characters and ends with
/// an ellipsis, `max` characters in all.
pub proof fn law_truncate_fits(s: Seq<char>, max: nat)
    requires
        max > 0,
    ensures
        truncated(s, max).len() <= max,
        s.len() <= max ==> truncated(s, max) == s,
        s.len() > max ==> truncated(s, max).len() == max
            && truncated(s, max).subrange(0, max - 1) == s.subrange(0, max - 1)
            && truncated(s, max).last() == '…',
{
    reveal_strlit("…");
    if s.len() > max {
        assert(truncated(s, max).subrange(0, max - 1) =~= s.subrange(0, max - 1));
    }
}

/// Each parity name shows as its initial, upper-cased: `none` N, `even` E,
/// `odd` O, `mark` M, `space` S; an initial shows as itself, and showing a
/// shown parity again changes nothing.
pub proof fn law_parity_initials(p: Seq<char>)
    ensures
        parity_letter("none"@) == "N"@ && parity_letter("even"@) == "E"@ && parity_letter("odd"@) == "O"@
            && parity_letter("mark"@) == "M"@ && parity_letter("space"@) == "S"@,
        parity_letter(parity_letter(p)) == parity_letter(p),
{
    reveal_strlit("none");
    reveal_strlit("even");
    reveal_strlit("odd");
    reveal_strlit("mark");
    reveal_strlit("space");
    reveal_strlit("N");
    reveal_strlit("E");
    reveal_strlit("O");
    reveal_strlit("M");
    reveal_strlit("S");
    assert("N"@.len() == 1 && "E"@.len() == 1 && "O"@.len() == 1 && "M"@.len() == 1 && "S"@.len() == 1);
    assert("none"@.len() == 4 && "even"@.len() == 4 && "odd"@.len() == 3 && "mark"@.len() == 4 && "space"@.len() == 5);
    assert("N"@[0] != "E"@[0] && "N"@[0] != "O"@[0] && "N"@[0] != "M"@[0] && "N"@[0] != "S"@[0]);
    assert("E"@[0] != "O"@[0] && "E"@[0] != "M"@[0] && "E"@[0] != "S"@[0]);
    assert("O"@[0] != "M"@[0] && "O"@[0] != "S"@[0] && "M"@[0] != "S"@[0]);
    assert("none"@[0] != "even"@[0] && "none"@[0] != "mark"@[0] && "even"@[0] != "mark"@[0]);
}

} // verus!

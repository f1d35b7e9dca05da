use vstd::prelude::*;
use crate::model::BusType;
use crate::json_doc::{json_code_value_entries, json_code_value_entries_of, json_is_valid, json_number_text, json_number_text_at, json_parses};
use crate::text::{decimal_chars, push_decimal, text_eq};

verus! {

/// Unit struct naming the HTTP JSON polling driver.
#[derive(Debug, Clone, Copy, PartialEq, Eq, Structural)]
pub struct HttpJsonDriver;

impl HttpJsonDriver {
    /// The driver.
    pub fn new() -> (r: Self)
        ensures
            r == HttpJsonDriver,
    {
        HttpJsonDriver
    }

    /// The protocol's name as the logs show it.
    pub fn protocol_name(&self) -> (r: &'static str)
        ensures
            r@ == "HTTP JSON"@,
    {
        "HTTP JSON"
    }

    /// The endpoint polled for a device on a TCP bus,
    /// `http://{host}:{port}/api/readings`; `None` on a serial bus.
    pub fn readings_url(bus: &BusType) -> (r: Option<String>)
        ensures
            match *bus {
                BusType::Tcp { host, port } => r matches Some(u)
                    && u@ == "http://"@ + host@ + ":"@ + decimal_chars(port as nat) + "/api/readings"@,
                BusType::Serial { .. } => r is None,
            },
    {
        match bus {
            BusType::Tcp { host, port } => {
                let mut u = String::from_str("http://").concat(host.as_str()).concat(":");
                push_decimal(&mut u, *port as u64);
                Some(u.concat("/api/readings"))
            },
            BusType::Serial { .. } => None,
        }
    }
}

/// The number of the last entry whose code is `code` and whose value is a
/// number.
pub open spec fn last_entry_number(entries: Seq<(Option<Seq<char>>, Option<Seq<char>>)>, code: Seq<char>) -> Option<Seq<char>>
    decreases entries.len(),
{
    if entries.len() == 0 {
        None
    } else {
        let e = entries.last();
        if e.0 == Some(code) && e.1 is Some {
            e.1
        } else {
            last_entry_number(entries.drop_last(), code)
        }
    }
}

/// In an array reply the last numeric entry for a code wins: an entry for
/// the code with a number decides, and an entry for another code, or
/// without a number, changes nothing.
pub proof fn law_last_entry_wins(es: Seq<(Option<Seq<char>>, Option<Seq<char>>)>, code: Seq<char>, e: (Option<Seq<char>>, Option<Seq<char>>))
    ensures
        e.0 == Some(code) && e.1 is Some ==> last_entry_number(es.push(e), code) == e.1,
        !(e.0 == Some(code) && e.1 is Some) ==> last_entry_number(es.push(e), code) == last_entry_number(es, code),
        last_entry_number(Seq::empty(), code) is None,
{
    assert(es.push(e).drop_last() =~= es);
}

/// The reading of point `code` in a JSON reply: the number stored under the
/// code where the reply is an object that has one; otherwise, where the
/// reply is an array of `{"code": .., "value": ..}` entries, the number of
/// the last entry for the code that has one.
pub open spec fn http_json_reading(body: Seq<char>, code: Seq<char>) -> Option<Seq<char>> {
    match json_number_text(body, code) {
        Some(t) => Some(t),
        None => match json_code_value_entries(body) {
            Some(es) => last_entry_number(es, code),
            None => None,
        },
    }
}

fn last_entry_number_in(entries: &Vec<(Option<String>, Option<String>)>, code: &str) -> (r: Option<String>)
    ensures
        r.deep_view() == last_entry_number(entries.deep_view(), code@),
{
    let ghost all = entries.deep_view();
    let mut i: usize = entries.len();
    assert(all.subrange(0, i as int) =~= all);
    while i > 0
        invariant
            i <= entries@.len(),
            all == entries.deep_view(),
            last_entry_number(all, code@) == last_entry_number(all.subrange(0, i as int), code@),
        decreases i,
    {
        let ghost pre = all.subrange(0, i as int);
        assert(pre.drop_last() =~= all.subrange(0, i - 1));
        assert(pre.last() == all[i - 1]);
        assert(all[i - 1] == (entries@[i - 1].0.deep_view(), entries@[i - 1].1.deep_view()));
        let e = &entries[i - 1];
        match (&e.0, &e.1) {
            (Some(c), Some(v)) => {
                if text_eq(c.as_str(), code) {
                    return Some(v.clone());
                }
            },
            _ => {},
        }
        i = i - 1;
    }
    None
}

/// The readings of the points `codes` in a reply body, one per point in
/// order, each the number's JSON text; `None` where the body is not JSON,
/// which fails the poll.
pub fn http_json_readings(body: &str, codes: &Vec<String>) -> (r: Option<Vec<Option<String>>>)
    ensures
        r is None <==> !json_parses(body@),
        r matches Some(v) ==> v.deep_view().len() == codes@.len() && forall|i: int|
            0 <= i < codes@.len() ==> #[trigger] v.deep_view()[i] == http_json_reading(body@, codes@[i]@),
{
    if !json_is_valid(body) {
        return None;
    }
    let entries = json_code_value_entries_of(body);
    let mut out: Vec<Option<String>> = Vec::new();
    let mut i: usize = 0;
    while i < codes.len()
        invariant
            i <= codes@.len(),
            entries.deep_view() == json_code_value_entries(body@),
            out.deep_view().len() == i,
            forall|j: int| 0 <= j < i ==> #[trigger] out.deep_view()[j] == http_json_reading(body@, codes@[j]@),
        decreases codes@.len() - i,
    {
        let code = codes[i].as_str();
        let value = match json_number_text_at(body, code) {
            Some(t) => Some(t),
            None => match &entries {
                Some(es) => last_entry_number_in(es, code),
                None => None,
            },
        };
        let ghost before = out.deep_view();
        out.push(value);
        proof {
            assert(out.deep_view() =~= before.push(value.deep_view()));
        }
        i = i + 1;
    }
    Some(out)
}

} // verus!

use vstd::prelude::*;
use crate::model::BusType;
use crate::json_doc::{json_number_text, json_number_text_at};
use crate::text::{push_decimal, signed_decimal_chars, signed_decimal_text};

verus! {

/// Unit struct naming the MQTT subscription driver.
#[derive(Debug, Clone, Copy, PartialEq, Eq, Structural)]
pub struct MqttDriver;

impl MqttDriver {
    /// The driver.
    pub fn new() -> (r: Self)
        ensures
            r == MqttDriver,
    {
        MqttDriver
    }

    /// The protocol's name as the logs show it.
    pub fn protocol_name(&self) -> (r: &'static str)
        ensures
            r@ == "MQTT"@,
    {
        "MQTT"
    }

    /// The client id the driver connects with: `aziot-collector-{id}`.
    pub fn client_id(device_id: i64) -> (r: String)
        ensures
            r@ == "aziot-collector-"@ + signed_decimal_chars(device_id as int),
    {
        String::from_str("aziot-collector-").concat(signed_decimal_text(device_id).as_str())
    }

    /// The topic a device publishes its telemetry on:
    /// `neuron/{code}/telemetry`.
    pub fn telemetry_topic(code: &str) -> (r: String)
        ensures
            r@ == "neuron/"@ + code@ + "/telemetry"@,
    {
        String::from_str("neuron/").concat(code).concat("/telemetry")
    }

    /// The broker of a device on a TCP bus; `None` on a serial bus.
    pub fn broker(bus: &BusType) -> (r: Option<(String, u16)>)
        ensures
            match *bus {
                BusType::Tcp { host, port } => r == Some((host, port)),
                BusType::Serial { .. } => r is None,
            },
    {
        match bus {
            BusType::Tcp { host, port } => Some((host.clone(), *port)),
            BusType::Serial { .. } => None,
        }
    }
}

/// The reading of point `code` in a telemetry payload: the number stored
/// under the code in the payload's JSON object; nothing for an empty
/// payload (no message arrived).
pub open spec fn mqtt_reading(payload: Seq<char>, code: Seq<char>) -> Option<Seq<char>> {
    if payload.len() == 0 {
        None
    } else {
        json_number_text(payload, code)
    }
}

/// The readings of the points `codes` in a telemetry payload, one per point
/// in order, each the number's JSON text.
pub fn mqtt_readings(payload: &str, codes: &Vec<String>) -> (r: Vec<Option<String>>)
    ensures
        r.deep_view().len() == codes@.len(),
        forall|i: int| 0 <= i < codes@.len() ==> #[trigger] r.deep_view()[i] == mqtt_reading(payload@, codes@[i]@),
{
    let empty = payload.unicode_len() == 0;
    let mut out: Vec<Option<String>> = Vec::new();
    let mut i: usize = 0;
    while i < codes.len()
        invariant
            i <= codes@.len(),
            empty == (payload@.len() == 0),
            out.deep_view().len() == i,
            forall|j: int| 0 <= j < i ==> #[trigger] out.deep_view()[j] == mqtt_reading(payload@, codes@[j]@),
        decreases codes@.len() - i,
    {
        let value = if empty {
            None
        } else {
            json_number_text_at(payload, codes[i].as_str())
        };
        let ghost before = out.deep_view();
        out.push(value);
        proof {
            assert(out.deep_view() =~= before.push(value.deep_view()));
        }
        i = i + 1;
    }
    out
}

} // verus!

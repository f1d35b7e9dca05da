use vstd::prelude::*;

verus! {

/// The field protocols a device can speak.
#[derive(Debug, Clone, Copy, PartialEq, Eq, Structural)]
pub enum ProtocolType {
    ModbusRTU,
    DL645_2007,
    DL645_1997,
    IEC101,
    CanBus,
    ProfibusDP,
    ModbusTCP,
    IEC104,
    DNP3,
    OpcUa,
    BacnetIP,
    S7Comm,
    FinsTcp,
    EthernetIP,
    MitsubishiMC,
    Mqtt,
    SnmpV2c,
    HttpJson,
}

impl ProtocolType {
    /// The protocol talks over a serial line.
    pub open spec fn serial(self) -> bool {
        ||| self is ModbusRTU
        ||| self is DL645_2007
        ||| self is DL645_1997
        ||| self is IEC101
        ||| self is CanBus
        ||| self is ProfibusDP
    }

    /// The protocol talks over TCP/IP.
    pub open spec fn tcp(self) -> bool {
        ||| self is ModbusTCP
        ||| self is IEC104
        ||| self is DNP3
        ||| self is OpcUa
        ||| self is BacnetIP
        ||| self is S7Comm
        ||| self is FinsTcp
        ||| self is EthernetIP
        ||| self is MitsubishiMC
    }

    /// The protocol rides on an application protocol (MQTT, SNMP, HTTP).
    pub open spec fn app_layer(self) -> bool {
        ||| self is Mqtt
        ||| self is SnmpV2c
        ||| self is HttpJson
    }

    /// Whether the protocol talks over a serial line.
    pub fn is_serial(&self) -> (r: bool)
        ensures
            r == self.serial(),
    {
        match self {
            ProtocolType::ModbusRTU | ProtocolType::DL645_2007 | ProtocolType::DL645_1997
            | ProtocolType::IEC101 | ProtocolType::CanBus | ProtocolType::ProfibusDP => true,
            _ => false,
        }
    }

    /// Whether the protocol talks over TCP/IP.
    pub fn is_tcp(&self) -> (r: bool)
        ensures
            r == self.tcp(),
    {
        match self {
            ProtocolType::ModbusTCP | ProtocolType::IEC104 | ProtocolType::DNP3
            | ProtocolType::OpcUa | ProtocolType::BacnetIP | ProtocolType::S7Comm
            | ProtocolType::FinsTcp | ProtocolType::EthernetIP | ProtocolType::MitsubishiMC => true,
            _ => false,
        }
    }

    /// Whether the protocol rides on MQTT, SNMP or HTTP.
    pub fn is_app_layer(&self) -> (r: bool)
        ensures
            r == self.app_layer(),
    {
        match self {
            ProtocolType::Mqtt | ProtocolType::SnmpV2c | ProtocolType::HttpJson => true,
            _ => false,
        }
    }

    /// The wire identifier of the protocol in device configurations.
    pub open spec fn code_text(self) -> Seq<char> {
        match self {
            ProtocolType::ModbusRTU => "MODBUS_RTU"@,
            ProtocolType::DL645_2007 => "DL_T645_2007"@,
            ProtocolType::DL645_1997 => "DL_T645_1997"@,
            ProtocolType::IEC101 => "IEC_60870_5_101"@,
            ProtocolType::CanBus => "CAN_BUS"@,
            ProtocolType::ProfibusDP => "PROFIBUS_DP"@,
            ProtocolType::ModbusTCP => "MODBUS_TCP"@,
            ProtocolType::IEC104 => "IEC_60870_5_104"@,
            ProtocolType::DNP3 => "DNP3"@,
            ProtocolType::OpcUa => "OPC_UA"@,
            ProtocolType::BacnetIP => "BACNET_IP"@,
            ProtocolType::S7Comm => "S7_COMM"@,
            ProtocolType::FinsTcp => "FINS_TCP"@,
            ProtocolType::EthernetIP => "ETHERNET_IP"@,
            ProtocolType::MitsubishiMC => "MITSUBISHI_MC"@,
            ProtocolType::Mqtt => "MQTT"@,
            ProtocolType::SnmpV2c => "SNMP_V2C"@,
            ProtocolType::HttpJson => "HTTP_JSON"@,
        }
    }

    /// The human-readable name of the protocol.
    pub open spec fn display_text(self) -> Seq<char> {
        match self {
            ProtocolType::ModbusRTU => "Modbus RTU"@,
            ProtocolType::DL645_2007 => "DL/T645-2007"@,
            ProtocolType::DL645_1997 => "DL/T645-1997"@,
            ProtocolType::IEC101 => "IEC 60870-5-101"@,
            ProtocolType::CanBus => "CAN Bus"@,
            ProtocolType::ProfibusDP => "PROFIBUS DP"@,
            ProtocolType::ModbusTCP => "Modbus TCP"@,
            ProtocolType::IEC104 => "IEC 60870-5-104"@,
            ProtocolType::DNP3 => "DNP3"@,
            ProtocolType::OpcUa => "OPC UA"@,
            ProtocolType::BacnetIP => "BACnet/IP"@,
            ProtocolType::S7Comm => "S7 Communication"@,
            ProtocolType::FinsTcp => "FINS TCP"@,
            ProtocolType::EthernetIP => "EtherNet/IP"@,
            ProtocolType::MitsubishiMC => "Mitsubishi MC"@,
            ProtocolType::Mqtt => "MQTT"@,
            ProtocolType::SnmpV2c => "SNMP v2c"@,
            ProtocolType::HttpJson => "HTTP JSON"@,
        }
    }

    /// The wire identifier of the protocol.
    pub fn code(&self) -> (r: &'static str)
        ensures
            r@ == self.code_text(),
    {
        match self {
            ProtocolType::ModbusRTU => "MODBUS_RTU",
            ProtocolType::DL645_2007 => "DL_T645_2007",
            ProtocolType::DL645_1997 => "DL_T645_1997",
            ProtocolType::IEC101 => "IEC_60870_5_101",
            ProtocolType::CanBus => "CAN_BUS",
            ProtocolType::ProfibusDP => "PROFIBUS_DP",
            ProtocolType::ModbusTCP => "MODBUS_TCP",
            ProtocolType::IEC104 => "IEC_60870_5_104",
            ProtocolType::DNP3 => "DNP3",
            ProtocolType::OpcUa => "OPC_UA",
            ProtocolType::BacnetIP => "BACNET_IP",
            ProtocolType::S7Comm => "S7_COMM",
            ProtocolType::FinsTcp => "FINS_TCP",
            ProtocolType::EthernetIP => "ETHERNET_IP",
            ProtocolType::MitsubishiMC => "MITSUBISHI_MC",
            ProtocolType::Mqtt => "MQTT",
            ProtocolType::SnmpV2c => "SNMP_V2C",
            ProtocolType::HttpJson => "HTTP_JSON",
        }
    }

    /// The human-readable name of the protocol.
    pub fn display_name(&self) -> (r: &'static str)
        ensures
            r@ == self.display_text(),
    {
        match self {
            ProtocolType::ModbusRTU => "Modbus RTU",
            ProtocolType::DL645_2007 => "DL/T645-2007",
            ProtocolType::DL645_1997 => "DL/T645-1997",
            ProtocolType::IEC101 => "IEC 60870-5-101",
            ProtocolType::CanBus => "CAN Bus",
            ProtocolType::ProfibusDP => "PROFIBUS DP",
            ProtocolType::ModbusTCP => "Modbus TCP",
            ProtocolType::IEC104 => "IEC 60870-5-104",
            ProtocolType::DNP3 => "DNP3",
            ProtocolType::OpcUa => "OPC UA",
            ProtocolType::BacnetIP => "BACnet/IP",
            ProtocolType::S7Comm => "S7 Communication",
            ProtocolType::FinsTcp => "FINS TCP",
            ProtocolType::EthernetIP => "EtherNet/IP",
            ProtocolType::MitsubishiMC => "Mitsubishi MC",
            ProtocolType::Mqtt => "MQTT",
            ProtocolType::SnmpV2c => "SNMP v2c",
            ProtocolType::HttpJson => "HTTP JSON",
        }
    }
}

/// Every protocol belongs to exactly one transport family: serial, TCP/IP,
/// or application layer.
pub proof fn law_transport_partition(p: ProtocolType)
    ensures
        p.serial() || p.tcp() || p.app_layer(),
        !(p.serial() && p.tcp()),
        !(p.serial() && p.app_layer()),
        !(p.tcp() && p.app_layer()),
{
}

/// First, last and next-to-last characters: enough to tell the wire
/// identifiers apart.
spec fn code_key(s: Seq<char>) -> (char, char, char) {
    (s[0], s[s.len() - 1], s[s.len() - 2])
}

/// Distinct protocols have distinct wire identifiers, so a configuration's
/// identifier names exactly one protocol.
pub proof fn law_code_injective(p: ProtocolType, q: ProtocolType)
    requires
        p.code_text() == q.code_text(),
    ensures
        p == q,
{
    reveal_strlit("MODBUS_RTU");
    reveal_strlit("DL_T645_2007");
    reveal_strlit("DL_T645_1997");
    reveal_strlit("IEC_60870_5_101");
    reveal_strlit("CAN_BUS");
    reveal_strlit("PROFIBUS_DP");
    reveal_strlit("MODBUS_TCP");
    reveal_strlit("IEC_60870_5_104");
    reveal_strlit("DNP3");
    reveal_strlit("OPC_UA");
    reveal_strlit("BACNET_IP");
    reveal_strlit("S7_COMM");
    reveal_strlit("FINS_TCP");
    reveal_strlit("ETHERNET_IP");
    reveal_strlit("MITSUBISHI_MC");
    reveal_strlit("MQTT");
    reveal_strlit("SNMP_V2C");
    reveal_strlit("HTTP_JSON");
    assert(code_key(p.code_text()) == code_key(q.code_text()));
}

/// Serial line settings.
#[derive(Debug, PartialEq)]
pub struct BusParam {
    pub baud: u32,
    pub data_bits: u8,
    pub stop_bits: u8,
    pub parity: String,
}

impl Clone for BusParam {
    fn clone(&self) -> (r: Self)
        ensures
            r == *self,
    {
        BusParam {
            baud: self.baud,
            data_bits: self.data_bits,
            stop_bits: self.stop_bits,
            parity: self.parity.clone(),
        }
    }
}

/// Baud rate used when a configuration leaves it out.
pub fn default_baud() -> (r: u32)
    ensures
        r == 9600,
{
    9600
}

/// Data bits used when a configuration leaves them out.
pub fn default_data_bits() -> (r: u8)
    ensures
        r == 8,
{
    8
}

/// Stop bits used when a configuration leaves them out.
pub fn default_stop_bits() -> (r: u8)
    ensures
        r == 1,
{
    1
}

/// Parity used when a configuration leaves it out.
pub fn default_parity() -> (r: String)
    ensures
        r@ == "none"@,
{
    String::from_str("none")
}

impl Default for BusParam {
    /// 9600 baud, 8 data bits, 1 stop bit, no parity.
    fn default() -> (r: Self)
        ensures
            r.baud == 9600,
            r.data_bits == 8,
            r.stop_bits == 1,
            r.parity@ == "none"@,
    {
        BusParam {
            baud: default_baud(),
            data_bits: default_data_bits(),
            stop_bits: default_stop_bits(),
            parity: default_parity(),
        }
    }
}

/// How a device is reached: a serial port with its line settings, or a
/// TCP/UDP endpoint.
#[derive(Debug, Clone, PartialEq)]
pub enum BusType {
    Serial { port_name: String, bus_param: BusParam },
    Tcp { host: String, port: u16 },
}

/// One measured quantity of a device and where to find it.
///
/// `coefficient_bits` and `offset_bits` are the IEEE-754 bit patterns of the
/// linear transform applied to a raw reading; `extra_params` is the raw JSON
/// text of protocol-specific parameters.
#[derive(Debug, Clone)]
pub struct DataPoint {
    pub sensor_code: String,
    pub sensor_name: String,
    pub register_address: u16,
    pub register_count: u16,
    pub data_type: String,
    pub byte_order: String,
    pub func_code: String,
    pub coefficient_bits: u64,
    pub offset_bits: u64,
    pub unit: String,
    pub extra_params: Option<String>,
}

/// One alarm rule of a device; `params` is the JSON text of the rule's
/// parameters (such as `upper` and `lower`).
#[derive(Debug)]
pub struct DeviceAlarmThreshold {
    pub sensor_code: String,
    pub alarm_type: String,
    pub enabled: bool,
    pub level: String,
    pub params: String,
}

impl Clone for DeviceAlarmThreshold {
    fn clone(&self) -> (r: Self)
        ensures
            r == *self,
    {
        DeviceAlarmThreshold {
            sensor_code: self.sensor_code.clone(),
            alarm_type: self.alarm_type.clone(),
            enabled: self.enabled,
            level: self.level.clone(),
            params: self.params.clone(),
        }
    }
}

/// A configured device with its runtime health.
#[derive(Debug, Clone)]
pub struct Device {
    pub id: i64,
    pub code: String,
    pub name: String,
    pub protocol: ProtocolType,
    pub slave_addr: u8,
    pub bus: BusType,
    pub collect_interval_sec: Option<u64>,
    pub data_points: Vec<DataPoint>,
    pub alarm_config: Option<Vec<DeviceAlarmThreshold>>,
    pub online: bool,
    pub consecutive_failures: u32,
    pub last_success_at: Option<i64>,
    pub last_error_at: Option<i64>,
    pub last_error_msg: String,
}

/// A configuration change pushed by the platform.
#[derive(Debug, Clone)]
pub struct ConfigDelta {
    pub version: u64,
    pub action: String,
    pub device: Option<Device>,
}

} // verus!

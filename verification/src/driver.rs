use vstd::prelude::*;
use crate::bacnet::BacnetDriver;
use crate::canbus::CanBusDriver;
use crate::dlt645::DLT645Driver;
use crate::dnp3::DNP3Driver;
use crate::ethernet_ip::EthernetIPDriver;
use crate::fins::FinsTcpDriver;
use crate::http_poll::HttpJsonDriver;
use crate::iec101::IEC101Driver;
use crate::iec104::IEC104Driver;
use crate::mitsubishi::MitsubishiMCDriver;
use crate::modbus::{ModbusRTUDriver, ModbusTCPDriver};
use crate::model::{BusParam, BusType, Device, ProtocolType};
use crate::mqtt_driver::MqttDriver;
use crate::opcua::OpcUaDriver;
use crate::profibus::ProfibusDPDriver;
use crate::s7comm::S7CommDriver;
use crate::scheduler::bus_key_of;
use crate::snmp::SnmpV2cDriver;
use crate::text::{decimal_chars, push_decimal, text_eq};

verus! {

/// The driver that serves a protocol.
#[derive(Debug, Clone, Copy, PartialEq, Eq, Structural)]
pub enum Driver {
    ModbusRtu(ModbusRTUDriver),
    ModbusTcp(ModbusTCPDriver),
    Dlt645(DLT645Driver),
    Iec104(IEC104Driver),
    Iec101(IEC101Driver),
    Dnp3(DNP3Driver),
    OpcUa(OpcUaDriver),
    Mqtt(MqttDriver),
    Bacnet(BacnetDriver),
    Snmp(SnmpV2cDriver),
    HttpJson(HttpJsonDriver),
    CanBus(CanBusDriver),
    S7Comm(S7CommDriver),
    Profibus(ProfibusDPDriver),
    EthernetIp(EthernetIPDriver),
    Fins(FinsTcpDriver),
    Mitsubishi(MitsubishiMCDriver),
}

/// The driver for each protocol; CAN bus and PROFIBUS DP only where the
/// platform has SocketCAN and Linux serial support.
pub open spec fn driver_for(p: ProtocolType, linux: bool) -> Option<Driver> {
    match p {
        ProtocolType::ModbusRTU => Some(Driver::ModbusRtu(ModbusRTUDriver)),
        ProtocolType::ModbusTCP => Some(Driver::ModbusTcp(ModbusTCPDriver)),
        ProtocolType::DL645_2007 => Some(Driver::Dlt645(DLT645Driver { is_1997: false })),
        ProtocolType::DL645_1997 => Some(Driver::Dlt645(DLT645Driver { is_1997: true })),
        ProtocolType::IEC104 => Some(Driver::Iec104(IEC104Driver)),
        ProtocolType::IEC101 => Some(Driver::Iec101(IEC101Driver)),
        ProtocolType::DNP3 => Some(Driver::Dnp3(DNP3Driver)),
        ProtocolType::OpcUa => Some(Driver::OpcUa(OpcUaDriver)),
        ProtocolType::Mqtt => Some(Driver::Mqtt(MqttDriver)),
        ProtocolType::BacnetIP => Some(Driver::Bacnet(BacnetDriver)),
        ProtocolType::SnmpV2c => Some(Driver::Snmp(SnmpV2cDriver)),
        ProtocolType::HttpJson => Some(Driver::HttpJson(HttpJsonDriver)),
        ProtocolType::CanBus => if linux { Some(Driver::CanBus(CanBusDriver)) } else { None },
        ProtocolType::S7Comm => Some(Driver::S7Comm(S7CommDriver)),
        ProtocolType::ProfibusDP => if linux { Some(Driver::Profibus(ProfibusDPDriver)) } else { None },
        ProtocolType::EthernetIP => Some(Driver::EthernetIp(EthernetIPDriver)),
        ProtocolType::FinsTcp => Some(Driver::Fins(FinsTcpDriver)),
        ProtocolType::MitsubishiMC => Some(Driver::Mitsubishi(MitsubishiMCDriver)),
    }
}

/// The name under which a driver logs: its protocol's name.
pub open spec fn driver_name(d: Driver) -> Seq<char> {
    match d {
        Driver::ModbusRtu(_) => "Modbus RTU"@,
        Driver::ModbusTcp(_) => "Modbus TCP"@,
        Driver::Dlt645(x) => if x.is_1997 { "DL/T645-1997"@ } else { "DL/T645-2007"@ },
        Driver::Iec104(_) => "IEC 60870-5-104"@,
        Driver::Iec101(_) => "IEC 60870-5-101"@,
        Driver::Dnp3(_) => "DNP3"@,
        Driver::OpcUa(_) => "OPC UA"@,
        Driver::Mqtt(_) => "MQTT"@,
        Driver::Bacnet(_) => "BACnet/IP"@,
        Driver::Snmp(_) => "SNMP v2c"@,
        Driver::HttpJson(_) => "HTTP JSON"@,
        Driver::CanBus(_) => "CAN Bus"@,
        Driver::S7Comm(_) => "S7 Communication"@,
        Driver::Profibus(_) => "PROFIBUS DP"@,
        Driver::EthernetIp(_) => "EtherNet/IP"@,
        Driver::Fins(_) => "FINS TCP"@,
        Driver::Mitsubishi(_) => "Mitsubishi MC"@,
    }
}

impl Driver {
    /// The protocol name of the driver, as the driver itself gives it.
    pub fn protocol_name(&self) -> (r: &'static str)
        ensures
            r@ == driver_name(*self),
    {
        match self {
            Driver::ModbusRtu(d) => d.protocol_name(),
            Driver::ModbusTcp(d) => d.protocol_name(),
            Driver::Dlt645(d) => d.protocol_name(),
            Driver::Iec104(d) => d.protocol_name(),
            Driver::Iec101(d) => d.protocol_name(),
            Driver::Dnp3(d) => d.protocol_name(),
            Driver::OpcUa(d) => d.protocol_name(),
            Driver::Mqtt(d) => d.protocol_name(),
            Driver::Bacnet(d) => d.protocol_name(),
            Driver::Snmp(d) => d.protocol_name(),
            Driver::HttpJson(d) => d.protocol_name(),
            Driver::CanBus(d) => d.protocol_name(),
            Driver::S7Comm(d) => d.protocol_name(),
            Driver::Profibus(d) => d.protocol_name(),
            Driver::EthernetIp(d) => d.protocol_name(),
            Driver::Fins(d) => d.protocol_name(),
            Driver::Mitsubishi(d) => d.protocol_name(),
        }
    }
}

/// The driver built for a protocol logs under the protocol's display name.
pub proof fn law_driver_name_is_display_name(p: ProtocolType, linux: bool)
    ensures
        driver_for(p, linux) matches Some(d) ==> driver_name(d) == p.display_text(),
{
}

/// Chooses drivers by protocol.
#[derive(Debug, Clone, Copy, PartialEq, Eq, Structural)]
pub struct DriverFactory;

impl DriverFactory {
    /// The driver for a device's protocol; `None` only for CAN bus and
    /// PROFIBUS DP where `linux` does not hold.
    pub fn create(device: &Device, linux: bool) -> (r: Option<Driver>)
        ensures
            r == driver_for(device.protocol, linux),
    {
        match device.protocol {
            ProtocolType::ModbusRTU => Some(Driver::ModbusRtu(ModbusRTUDriver::new())),
            ProtocolType::ModbusTCP => Some(Driver::ModbusTcp(ModbusTCPDriver::new())),
            ProtocolType::DL645_2007 => Some(Driver::Dlt645(DLT645Driver::new(false))),
            ProtocolType::DL645_1997 => Some(Driver::Dlt645(DLT645Driver::new(true))),
            ProtocolType::IEC104 => Some(Driver::Iec104(IEC104Driver::new())),
            ProtocolType::IEC101 => Some(Driver::Iec101(IEC101Driver::new())),
            ProtocolType::DNP3 => Some(Driver::Dnp3(DNP3Driver::new())),
            ProtocolType::OpcUa => Some(Driver::OpcUa(OpcUaDriver::new())),
            ProtocolType::Mqtt => Some(Driver::Mqtt(MqttDriver::new())),
            ProtocolType::BacnetIP => Some(Driver::Bacnet(BacnetDriver::new())),
            ProtocolType::SnmpV2c => Some(Driver::Snmp(SnmpV2cDriver::new())),
            ProtocolType::HttpJson => Some(Driver::HttpJson(HttpJsonDriver::new())),
            ProtocolType::CanBus => if linux {
                Some(Driver::CanBus(CanBusDriver::new()))
            } else {
                None
            },
            ProtocolType::S7Comm => Some(Driver::S7Comm(S7CommDriver::new())),
            ProtocolType::ProfibusDP => if linux {
                Some(Driver::Profibus(ProfibusDPDriver::new()))
            } else {
                None
            },
            ProtocolType::EthernetIP => Some(Driver::EthernetIp(EthernetIPDriver::new())),
            ProtocolType::FinsTcp => Some(Driver::Fins(FinsTcpDriver::new())),
            ProtocolType::MitsubishiMC => Some(Driver::Mitsubishi(MitsubishiMCDriver::new())),
        }
    }
}

/// `host:port` of a device on a TCP bus; `None` on a serial bus, which
/// the TCP and UDP drivers refuse.
pub fn tcp_address(bus: &BusType) -> (r: Option<String>)
    ensures
        match *bus {
            BusType::Tcp { .. } => r matches Some(a) && a@ == bus_key_of(*bus),
            BusType::Serial { .. } => r is None,
        },
{
    match bus {
        BusType::Tcp { host, port } => {
            let mut a = host.clone().concat(":");
            push_decimal(&mut a, *port as u64);
            Some(a)
        },
        BusType::Serial { .. } => None,
    }
}

/// Port name and line settings of a device on a serial bus; `None` on a
/// TCP bus, which the serial drivers refuse.
pub fn serial_line(bus: &BusType) -> (r: Option<(String, BusParam)>)
    ensures
        match *bus {
            BusType::Serial { port_name, bus_param } => r == Some((port_name, bus_param)),
            BusType::Tcp { .. } => r is None,
        },
{
    match bus {
        BusType::Serial { port_name, bus_param } => Some((port_name.clone(), bus_param.clone())),
        BusType::Tcp { .. } => None,
    }
}


/// Parity of a serial line.
#[derive(Debug, Clone, Copy, PartialEq, Eq, Structural)]
pub enum SerialParity {
    NoParity,
    Odd,
    Even,
}

/// How a serial port is opened: baud rate, data bits (5 to 8), parity and
/// stop bits (1 or 2).
#[derive(Debug, Clone, Copy, PartialEq, Eq, Structural)]
pub struct SerialSettings {
    pub baud: u32,
    pub data_bits: u8,
    pub parity: SerialParity,
    pub stop_bits: u8,
}

/// The port settings for a bus's line parameters: 5, 6 and 7 data bits are
/// kept and anything else opens with 8; `odd` and `even` parity are kept and
/// anything else opens with none; 2 stop bits are kept and anything else
/// opens with 1.
pub open spec fn serial_settings_of(p: BusParam) -> SerialSettings {
    SerialSettings {
        baud: p.baud,
        data_bits: if p.data_bits == 5 || p.data_bits == 6 || p.data_bits == 7 { p.data_bits } else { 8 },
        parity: if p.parity@ == "odd"@ {
            SerialParity::Odd
        } else if p.parity@ == "even"@ {
            SerialParity::Even
        } else {
            SerialParity::NoParity
        },
        stop_bits: if p.stop_bits == 2 { 2 } else { 1 },
    }
}

/// The settings a serial port is opened with for these line parameters.
pub fn serial_settings(p: &BusParam) -> (r: SerialSettings)
    ensures
        r == serial_settings_of(*p),
{
    let data_bits: u8 = if p.data_bits == 5 || p.data_bits == 6 || p.data_bits == 7 {
        p.data_bits
    } else {
        8
    };
    let parity = if text_eq(p.parity.as_str(), "odd") {
        SerialParity::Odd
    } else if text_eq(p.parity.as_str(), "even") {
        SerialParity::Even
    } else {
        SerialParity::NoParity
    };
    let stop_bits: u8 = if p.stop_bits == 2 {
        2
    } else {
        1
    };
    SerialSettings { baud: p.baud, data_bits, parity, stop_bits }
}

} // verus!

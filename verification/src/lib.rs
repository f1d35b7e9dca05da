//! Verified core of an industrial IoT data collector: the device model, the
//! frame builders and response decoders of the field-bus and PLC protocols,
//! the device registry, the poll bookkeeping, the upload channel state
//! machine and the aggregation windows.

pub mod bacnet;
pub mod bytes;
pub mod config;
pub mod canbus;
pub mod display;
pub mod dlt645;
pub mod dnp3;
pub mod driver;
pub mod ethernet_ip;
pub mod fins;
pub mod http_poll;
pub mod iec101;
pub mod json_doc;
pub mod iec104;
pub mod mitsubishi;
pub mod model;
pub mod mqtt_driver;
pub mod modbus;
pub mod opcua;
pub mod profibus;
pub mod telemetry;
pub mod text;
pub mod uploader;
pub mod reporter;
pub mod runner;
pub mod s7comm;
pub mod scheduler;
pub mod snmp;
pub mod storage;

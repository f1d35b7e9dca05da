use neuron_collector::http_poll::http_json_readings;
use neuron_collector::mqtt_driver::mqtt_readings;
use neuron_collector::bacnet::{bacnet_object_type, build_bacnet_read_property, build_bacnet_unconfirmed_req, parse_bacnet_value};
use neuron_collector::bytes::{FrameFault, RawValue};
use neuron_collector::canbus::{can_frame_reading, decode_can_data};
use neuron_collector::dlt645::{build_645_read_frame, decode_data_identifier, format_addr, parse_645_response, DLT645Driver};
use neuron_collector::dnp3::{build_dnp3_request, crc_dnp, parse_dnp3_response, DnpReading};
use neuron_collector::ethernet_ip::{
    build_cip_read_tag, build_eip_forward_open, build_eip_register_session, eip_header, parse_cip_connection_id,
    parse_cip_data, parse_eip_session,
};
use neuron_collector::fins::{build_fins_memory_read, fins_point_command, fins_tcp_frame, parse_fins_area, parse_fins_response};
use neuron_collector::http_poll::HttpJsonDriver;
use neuron_collector::iec101::{build_iec101_frame, parse_iec101_response};
use neuron_collector::iec104::{build_asdu_interrogation, build_iec104_i_frame, iec104_u_frame, parse_iec104_i_frame};
use neuron_collector::mitsubishi::{build_mc_3e_read, parse_mc_device, parse_mc_response};
use neuron_collector::model::{BusParam, BusType, DataPoint};
use neuron_collector::modbus::{coils_to_words, decode_modbus_value, modbus_request, registers_to_bytes, ModbusRead};
use neuron_collector::mqtt_driver::MqttDriver;
use neuron_collector::opcua::{build_hello_body, build_opcua_hello, opcua_candidates};
use neuron_collector::profibus::{build_profibus_dp_read, decode_profibus_value, parse_profibus_response, profibus_readings};
use neuron_collector::s7comm::{
    parse_s7_read_response, s7_area, s7_build_cotp_cr, s7_build_read_var, s7_build_setup_comm, s7_connection_accepted,
    s7_point_request,
};
use neuron_collector::snmp::{build_oid_from_register, build_snmp_get, encode_ber_subid, parse_snmp_response};

fn point(code: &str, func: &str, reg: u16, count: u16, dtype: &str) -> DataPoint {
    DataPoint {
        sensor_code: code.into(),
        sensor_name: code.into(),
        register_address: reg,
        register_count: count,
        data_type: dtype.into(),
        byte_order: "ABCD".into(),
        func_code: func.into(),
        coefficient_bits: 1.0f64.to_bits(),
        offset_bits: 0.0f64.to_bits(),
        unit: "V".into(),
        extra_params: None,
    }
}

#[test]
fn modbus_decodes_every_type() {
    let w = [0x4148u16, 0x0000];
    assert_eq!(decode_modbus_value(&w, "ABCD", "float32"), RawValue::Float32(0x41480000));
    assert_eq!(f32::from_bits(0x41480000), 12.5);
    assert_eq!(decode_modbus_value(&[0x0102, 0x0304], "big_endian", "uint32"), RawValue::Unsigned(0x01020304));
    assert_eq!(decode_modbus_value(&[0x0102, 0x0304], "DCBA", "uint32"), RawValue::Unsigned(0x02010403));
    assert_eq!(decode_modbus_value(&[0x0102, 0x0304], "CDAB", "uint32"), RawValue::Unsigned(0x01020304));
    assert_eq!(decode_modbus_value(&[0xFFFE], "ABCD", "int16"), RawValue::Signed(-2));
    assert_eq!(decode_modbus_value(&[0xFEFF], "little_endian", "int16"), RawValue::Signed(-2));
    assert_eq!(decode_modbus_value(&[0xFFFF, 0xFFFF], "ABCD", "int32"), RawValue::Signed(-1));
    assert_eq!(decode_modbus_value(&[0x8001], "DCBA", "uint16"), RawValue::Unsigned(0x8001));
    assert_eq!(decode_modbus_value(&[2], "ABCD", "bool"), RawValue::Flag(true));
    assert_eq!(decode_modbus_value(&[0], "ABCD", "bool"), RawValue::Flag(false));
    assert_eq!(decode_modbus_value(&[7], "ABCD", "float32"), RawValue::Unsigned(0));
    assert_eq!(decode_modbus_value(&[], "ABCD", "int16"), RawValue::Signed(0));
    assert_eq!(decode_modbus_value(&[], "ABCD", "other"), RawValue::Unsigned(0));
    assert_eq!(
        decode_modbus_value(&[0x3FF0, 0, 0, 0], "ABCD", "float64"),
        RawValue::Float64(0x3FF0_0000_0000_0000)
    );
    assert_eq!(decode_modbus_value(&[9, 8], "ABCD", "text"), RawValue::Unsigned(9));
    assert_eq!(registers_to_bytes(&[0x1234, 0xABCD], false), vec![0x12, 0x34, 0xAB, 0xCD]);
    assert_eq!(registers_to_bytes(&[0x1234, 0xABCD], true), vec![0x34, 0x12, 0xCD, 0xAB]);
    assert_eq!(coils_to_words(&[true, false, true]), vec![1, 0, 1]);
}

#[test]
fn modbus_request_planning() {
    let r = modbus_request(&point("a", "1", 10, 0, "bool"));
    assert_eq!((r.function, r.read, r.address, r.count), (1, ModbusRead::Coils, 10, 1));
    let r = modbus_request(&point("a", "4", 20, 2, "float32"));
    assert_eq!((r.function, r.read, r.count), (4, ModbusRead::HoldingRegisters, 2));
    let r = modbus_request(&point("a", "x3", 20, 2, "float32"));
    assert_eq!((r.function, r.read), (3, ModbusRead::HoldingRegisters));
    let r = modbus_request(&point("a", "+2", 0, 1, "bool"));
    assert_eq!((r.function, r.read), (2, ModbusRead::Coils));
    let r = modbus_request(&point("a", "300", 0, 1, "uint16"));
    assert_eq!(r.function, 3);
}

#[test]
fn snmp_request_and_response() {
    assert_eq!(build_oid_from_register(105), vec![1, 3, 6, 1, 2, 1, 1, 5]);
    assert_eq!(build_oid_from_register(7), vec![1, 3, 6, 1, 2, 1, 0, 7]);
    let req = build_snmp_get(b"public", &[1, 3, 6, 1, 2, 1, 1, 5]);
    assert_eq!(
        req,
        vec![
            0x30, 0x26, 0x02, 0x01, 0x01, 0x04, 0x06, 0x70, 0x75, 0x62, 0x6C, 0x69, 0x63, 0xA0, 0x19,
            0x02, 0x02, 0x00, 0x01, 0x02, 0x01, 0x00, 0x02, 0x01, 0x00, 0x30, 0x0D, 0x30, 0x0B, 0x06, 0x07, 0x2B,
            0x06, 0x01, 0x02, 0x01, 0x01, 0x05, 0x05, 0x00
        ]
    );
    let req3 = build_snmp_get(b"public", &[1, 3, 6, 1, 2, 1, 1, 3]);
    assert_eq!(
        req3,
        vec![
            0x30, 0x26, 0x02, 0x01, 0x01, 0x04, 0x06, b'p', b'u', b'b', b'l', b'i', b'c', 0xA0, 0x19, 0x02, 0x02,
            0x00, 0x01, 0x02, 0x01, 0x00, 0x02, 0x01, 0x00, 0x30, 0x0D, 0x30, 0x0B, 0x06, 0x07, 0x2B, 0x06, 0x01,
            0x02, 0x01, 0x01, 0x03, 0x05, 0x00
        ]
    );
    // A community of 200 bytes takes the long length form 0x81 0xC8, and the
    // message length grows past 255 into 0x82 hi lo.
    let long = vec![b'a'; 200];
    let req4 = build_snmp_get(&long, &[1, 3, 6, 1, 2, 1, 1, 3]);
    assert_eq!(&req4[..4], &[0x30, 0x81, 0xE9, 0x02]);
    assert_eq!(&req4[5..10], &[0x01, 0x04, 0x81, 0xC8, b'a']);
    assert_eq!(req4.len(), 3 + 0xE9);
    let long2 = vec![b'a'; 300];
    let req5 = build_snmp_get(&long2, &[1, 3, 6, 1, 2, 1, 1, 3]);
    assert_eq!(&req5[..4], &[0x30, 0x82, 0x01, 0x4E]);
    assert_eq!(req5.len(), 4 + 0x14E);
    // The first two arcs are folded into one sub-identifier, BER-encoded too.
    let req6 = build_snmp_get(b"p", &[2, 100, 3]);
    assert_eq!(&req6[req6.len() - 7..], &[0x06, 0x03, 0x81, 0x34, 0x03, 0x05, 0x00]);
    let mut out = vec![0xAAu8];
    encode_ber_subid(300, &mut out);
    assert_eq!(out, vec![0xAA, 0x82, 0x2C]);
    let mut out2 = Vec::new();
    encode_ber_subid(16384, &mut out2);
    encode_ber_subid(5, &mut out2);
    assert_eq!(out2, vec![0x81, 0x80, 0x00, 0x05]);
    let resp = [0x30u8, 0x02, 0x01, 0x2A, 0, 0, 0, 0, 0, 0];
    assert_eq!(parse_snmp_response(&resp), Ok(Some(RawValue::Unsigned(42))));
    let gauge = [0x30u8, 0x04, 0x00, 0x42, 0x02, 0x01, 0x00, 0, 0, 0];
    assert_eq!(parse_snmp_response(&gauge), Ok(Some(RawValue::Unsigned(256))));
    assert_eq!(parse_snmp_response(&[0x31u8, 0x02, 0x01, 0x2A, 0, 0, 0, 0, 0, 0]), Ok(None));
    assert_eq!(parse_snmp_response(&[0x30u8, 0x02, 0x01]), Ok(None));
    let overrun = [0x30u8, 0x02, 0x0A, 0, 0, 0, 0, 0, 0, 0];
    assert_eq!(parse_snmp_response(&overrun), Err(FrameFault));
    let no_int = [0x30u8, 0x04, 0x01, 0x00, 0x04, 0x01, 0x00, 0x05, 0x00, 0x00];
    assert_eq!(parse_snmp_response(&no_int), Ok(None));
}

#[test]
fn dnp3_request_and_response() {
    assert_eq!(crc_dnp(&[0x0C, 0xC4, 0x01, 0x00, 0x01, 0x00]), 0x9C3D);
    // The CRC-16/DNP check values.
    assert_eq!(crc_dnp(b"123456789"), 0xEA82);
    assert_eq!(crc_dnp(b""), 0xFFFF);
    assert_eq!(
        build_dnp3_request(1),
        vec![0x05, 0x64, 0x0C, 0xC4, 0x01, 0x00, 0x01, 0x00, 0x3D, 0x9C, 0xC0, 0x02, 0x01, 0x3C, 0x02, 0x01, 0x02, 0x06, 0x00]
    );
    assert_eq!(
        build_dnp3_request(0x1234),
        vec![0x05, 0x64, 0x0C, 0xC4, 0x34, 0x12, 0x01, 0x00, 0x67, 0xC3, 0xC0, 0x02, 0x01, 0x3C, 0x02, 0x01, 0x02, 0x06, 0x00]
    );
    let mut buf = vec![0u8; 10];
    buf.extend_from_slice(&[30, 1, 0x82]);
    buf.extend_from_slice(&1.0f32.to_le_bytes());
    buf.extend_from_slice(&2.5f32.to_le_bytes());
    buf.extend_from_slice(&[1, 2, 0x02, 0x81, 0x00]);
    let r = parse_dnp3_response(&buf, 2);
    assert_eq!(
        r,
        vec![
            DnpReading { point: 0, value: RawValue::Float32(1.0f32.to_bits()) },
            DnpReading { point: 1, value: RawValue::Float32(2.5f32.to_bits()) },
            DnpReading { point: 0, value: RawValue::Flag(true) },
            DnpReading { point: 0, value: RawValue::Flag(false) },
        ]
    );
    assert_eq!(parse_dnp3_response(&buf, 1).len(), 1);
    assert!(parse_dnp3_response(&buf, 0).is_empty());
    assert!(parse_dnp3_response(&[0u8; 11], 3).is_empty());
    // A binary input for the first point: the reading carries the flag, and
    // the point's coefficient and offset apply to it as to any reading.
    let mut bin = vec![0u8; 10];
    bin.extend_from_slice(&[0x01, 0x02, 0x81, 0x80]);
    assert_eq!(parse_dnp3_response(&bin, 1), vec![DnpReading { point: 0, value: RawValue::Flag(true) }]);
}

#[test]
fn iec104_frames() {
    assert_eq!(iec104_u_frame(0x07), vec![0x68, 0x04, 0x07, 0x00, 0x00, 0x00]);
    assert_eq!(build_asdu_interrogation(6, 0x0102, 0), vec![0x64, 0x01, 0x06, 0x00, 0x02, 0x01, 0x00, 0x00, 0x00]);
    assert_eq!(
        build_iec104_i_frame(130, 1, 6, 1, 0x010203),
        vec![0x68, 0x0B, 0x04, 0x01, 0x02, 0x00, 0x64, 0x01, 0x06, 0x00, 0x01, 0x00, 0x03, 0x02, 0x01]
    );
    for (send, recv) in [(0u16, 0u16), (130, 1), (16383, 16384), (65535, 200)] {
        let f = build_iec104_i_frame(send, recv, 6, 1, 0);
        assert_eq!(f[2] % 2, 0);
        assert_eq!(f[2] as u16 / 2 + 128 * f[3] as u16, send % 16384);
        assert_eq!(f[4] as u16 / 2 + 128 * f[5] as u16, recv % 16384);
    }
    let measured = [0x68u8, 14, 0, 0, 0, 0, 13, 1, 3, 0, 1, 0, 0, 0x10, 0x27, 0];
    assert_eq!(parse_iec104_i_frame(&measured), Ok(Some(RawValue::Signed(10000))));
    let normalized = [0x68u8, 13, 0, 0, 0, 0, 9, 1, 3, 0, 1, 0, 0, 0x00, 0x40];
    assert_eq!(parse_iec104_i_frame(&normalized), Ok(Some(RawValue::Normalized(16384))));
    let single = [0x68u8, 11, 0, 0, 0, 0, 1, 1, 3, 0, 1, 0, 1];
    assert_eq!(parse_iec104_i_frame(&single), Ok(Some(RawValue::Flag(true))));
    let short = [0x68u8, 12, 0, 0, 0, 0, 13, 1, 3, 0, 1, 0, 0, 0];
    assert_eq!(parse_iec104_i_frame(&short), Ok(None));
    assert_eq!(parse_iec104_i_frame(&[0x67u8, 4, 0, 0, 0, 0]), Ok(None));
    assert_eq!(parse_iec104_i_frame(&[0x68u8, 2, 0, 0, 0, 0]), Err(FrameFault));
}

#[test]
fn iec101_frames() {
    assert_eq!(
        build_iec101_frame(1, 100, 6, 0),
        vec![0x68, 0x09, 0x09, 0x68, 0x53, 0x64, 0x01, 0x06, 0x00, 0x01, 0x00, 0x00, 0x00, 0x00, 0x75, 0x16]
    );
    let resp = [0x68u8, 9, 9, 0x68, 13, 1, 3, 0, 1, 0, 0, 0x34, 0x12, 0, 0x16];
    assert_eq!(parse_iec101_response(&resp), Some(RawValue::Signed(0x1234)));
    let single = [0x68u8, 7, 7, 0x68, 1, 1, 3, 0, 1, 0, 3, 0, 0x16];
    assert_eq!(parse_iec101_response(&single), Some(RawValue::Flag(true)));
    let other = [0x68u8, 9, 9, 0x68, 30, 1, 3, 0, 1, 0, 0, 0x34, 0x12, 0, 0x16];
    assert_eq!(parse_iec101_response(&other), None);
    assert_eq!(parse_iec101_response(&[0x68u8, 9, 9, 0x68, 13, 1]), None);
}

#[test]
fn fins_frames() {
    assert_eq!(
        build_fins_memory_read(0, 1, 0, 0, 5, 0, 0x82, 100, 1),
        vec![0x80, 0x00, 0x02, 0x00, 0x05, 0x00, 0x00, 0x01, 0x00, 0x00, 0x01, 0x01, 0x82, 0x00, 0x64, 0x00, 0x00, 0x01]
    );
    assert_eq!(fins_tcp_frame(&[0xAB]), vec![0x46, 0x49, 0x4E, 0x53, 0, 0, 0, 1, 0, 0, 0, 2, 0xAB]);
    assert_eq!(parse_fins_area("hr", 10), (0xB2, 10));
    assert_eq!(parse_fins_area("Cio", 3), (0xB0, 3));
    assert_eq!(parse_fins_area("io", 3), (0xB0, 3));
    assert_eq!(parse_fins_area("xx", 3), (0x82, 3));
    let cmd = fins_point_command(5, "wr", 7);
    assert_eq!(cmd.len(), 30);
    assert_eq!(&cmd[0..4], b"FINS");
    assert_eq!(cmd[7], 18);
    assert_eq!(cmd[12 + 4], 5);
    assert_eq!(cmd[12 + 12], 0xB1);
    let mut resp = b"FINS".to_vec();
    resp.extend_from_slice(&[0u8; 8]);
    resp.extend_from_slice(&[0u8; 12]);
    resp.extend_from_slice(&[0, 0]);
    resp.extend_from_slice(&[0xFF, 0xFE, 0x00, 0x01]);
    assert_eq!(parse_fins_response(&resp, "int16"), Ok(Some(RawValue::Signed(-2))));
    assert_eq!(parse_fins_response(&resp, "uint16"), Ok(Some(RawValue::Unsigned(0xFFFE))));
    assert_eq!(parse_fins_response(&resp, "uint32"), Ok(Some(RawValue::Unsigned(0xFFFE0001))));
    assert_eq!(parse_fins_response(&resp, "bool"), Ok(Some(RawValue::Flag(true))));
    assert_eq!(parse_fins_response(&resp, "other"), Ok(Some(RawValue::Unsigned(0xFF03))));
    let mut err = resp.clone();
    err[25] = 1;
    assert_eq!(parse_fins_response(&err, "int16"), Ok(None));
    let mut big = b"FINS".to_vec();
    big.extend_from_slice(&[0u8; 22]);
    big.extend_from_slice(&[0x12u8; 256]);
    assert_eq!(parse_fins_response(&big, "other"), Err(FrameFault));
    assert_eq!(parse_fins_response(b"FINX0000000000000000000000000000", "int16"), Ok(None));
    let mut f64resp = b"FINS".to_vec();
    f64resp.extend_from_slice(&[0u8; 8]);
    f64resp.extend_from_slice(&[0u8; 12]);
    f64resp.extend_from_slice(&[0x00, 0x00]);
    f64resp.extend_from_slice(&10.0f64.to_be_bytes());
    assert_eq!(f64resp.len(), 34);
    assert_eq!(parse_fins_response(&f64resp, "float64"), Ok(Some(RawValue::Float64(10.0f64.to_bits()))));
    // Fewer than eight data bytes: not a float64, read as the first word.
    assert_eq!(parse_fins_response(&resp, "float64"), Ok(Some(RawValue::Unsigned(0xFF03))));
}

#[test]
fn mitsubishi_frames() {
    assert_eq!(
        build_mc_3e_read(0xA8, 0x123456, 2),
        vec![0x50, 0x00, 0x00, 0xFF, 0xFF, 0x03, 0x00, 0x0C, 0x00, 0x01, 0x04, 0x00, 0x00, 0xA8, 0x56, 0x34, 0x12, 0x02, 0x00]
    );
    assert_eq!(parse_mc_device("m", 5), (0x90, 5));
    assert_eq!(parse_mc_device("D100", 0), (0xA8, 100));
    assert_eq!(parse_mc_device("D", 100), (0xA8, 100));
    assert_eq!(parse_mc_device("w20", 3), (0xB4, 23));
    assert_eq!(parse_mc_device("M1X", 7), (0xA8, 7));
    assert_eq!(parse_mc_device("x", 1), (0x9C, 1));
    assert_eq!(parse_mc_device("zz", 1), (0xA8, 1));
    let mut resp = vec![0x00u8, 0xD0, 0, 0, 0, 0, 0, 0, 0, 0, 0];
    resp.extend_from_slice(&[0x34, 0x12, 0x00, 0x00]);
    assert_eq!(parse_mc_response(&resp, "uint16"), Ok(Some(RawValue::Unsigned(0x1234))));
    assert_eq!(parse_mc_response(&resp, "int32"), Ok(Some(RawValue::Signed(0x1234))));
    assert_eq!(parse_mc_response(&resp, "bool"), Ok(Some(RawValue::Flag(false))));
    assert_eq!(parse_mc_response(&resp, "float64"), Ok(Some(RawValue::Unsigned(0x1234))));
    let mut one = vec![0x00u8, 0xD0, 0, 0, 0, 0, 0, 0, 0, 0, 0];
    one.push(7);
    assert_eq!(parse_mc_response(&one, "bool"), Err(FrameFault));
    let mut bad = resp.clone();
    bad[9] = 0x51;
    assert_eq!(parse_mc_response(&bad, "uint16"), Ok(None));
    assert_eq!(parse_mc_response(&[0x00u8, 0xD0, 0, 0, 0, 0, 0, 0, 0, 0, 0], "uint16"), Ok(None));
}

#[test]
fn s7_frames() {
    assert_eq!(
        s7_build_cotp_cr(),
        vec![0x03, 0x00, 0x00, 0x0D, 0x02, 0xF0, 0x80, 0xE0, 0x00, 0x00, 0x00, 0x08, 0x00, 0x00, 0x32, 0x01, 0x00, 0x00, 0x00, 0x08, 0x00, 0x08, 0x00]
    );
    assert_eq!(
        s7_build_setup_comm(),
        vec![
            0x03, 0x00, 0x00, 0x13, 0x02, 0xF0, 0x80, 0xF0, 0x00, 0x00, 0x00, 0x01, 0x00, 0x1C, 0x00, 0x00, 0x32, 0x01,
            0x00, 0x00, 0x00, 0x08, 0x00, 0x08, 0x00, 0x00
        ]
    );
    let rv = vec![
        0x03, 0x00, 0x00, 0x15, 0x02, 0xF0, 0x80, 0xF0, 0x00, 0x00, 0x00, 0x01, 0x00, 0x00, 0x04, 0x01, 0x12, 0x0A, 0x10,
        0x02, 0x00, 0x04, 0x00, 0x00, 0x84, 0x00, 0x00, 0x50,
    ];
    assert_eq!(s7_build_read_var(0x84, 0, 10, 4), rv);
    assert_eq!(s7_point_request("DB", 10), rv);
    assert_eq!(s7_area("m"), 0x83);
    assert_eq!(s7_area("Q"), 0x82);
    assert_eq!(s7_area("i"), 0x81);
    assert_eq!(s7_area("X"), 0x84);
    assert!(s7_connection_accepted(&[0x03, 0xD0, 0, 0]));
    assert!(!s7_connection_accepted(&[0x03, 0xD0, 0]));
    assert!(!s7_connection_accepted(&[0x03, 0xD1, 0, 0]));
    let mut resp = vec![0u8; 25];
    resp[17] = 0xFF;
    resp.push(4);
    resp.extend_from_slice(&[0x41, 0x48, 0x00, 0x00]);
    assert_eq!(parse_s7_read_response(&resp, "float32"), Some(RawValue::Float32(0x41480000)));
    assert_eq!(parse_s7_read_response(&resp, "uint16"), Some(RawValue::Unsigned(0x4148)));
    assert_eq!(parse_s7_read_response(&resp, "text"), Some(RawValue::Unsigned(0x41480000)));
    assert_eq!(parse_s7_read_response(&resp, "bool"), Some(RawValue::Flag(true)));
    let mut err = resp.clone();
    err[17] = 0x05;
    assert_eq!(parse_s7_read_response(&err, "float32"), None);
    let mut short = vec![0u8; 25];
    short[17] = 0xFF;
    short.extend_from_slice(&[4, 1, 2]);
    assert_eq!(parse_s7_read_response(&short, "uint16"), None);
}

#[test]
fn eip_frames() {
    assert_eq!(
        eip_header(0x65, 0x11223344, 4),
        vec![0x65, 0x00, 0x04, 0x00, 0x44, 0x33, 0x22, 0x11, 0, 0, 0, 0, 0, 0, 0, 0, 0, 0, 0, 0, 0, 0, 0, 0]
    );
    let mut reg = vec![0x65u8, 0x00, 0x04, 0x00];
    reg.extend_from_slice(&[0u8; 20]);
    reg.extend_from_slice(&[0x01, 0x00, 0x00, 0x00]);
    assert_eq!(build_eip_register_session(), reg);
    let fo = build_eip_forward_open(0x01020304);
    assert_eq!(fo.len(), 73);
    assert_eq!(&fo[0..8], &[0x6F, 0x00, 0x21, 0x00, 0x04, 0x03, 0x02, 0x01]);
    assert_eq!(&fo[30..40], &[0x02, 0x00, 0x00, 0x00, 0x00, 0x00, 0xB2, 0x00, 0x21, 0x00]);
    assert_eq!(&fo[40..46], &[0x54, 0x02, 0x20, 0x06, 0x24, 0x01]);
    let rt = build_cip_read_tag(7, 0xAABBCCDD, b"T1", 1);
    let mut expect = vec![0x70u8, 0x00, 0x0E, 0x00, 0x07, 0x00, 0x00, 0x00];
    expect.extend_from_slice(&[0u8; 22]);
    expect.extend_from_slice(&[0x02, 0x00, 0xA1, 0x00, 0x0E, 0x00]);
    expect.extend_from_slice(&[0x4C, 0x01, 0x00, 0x91, 0xDD, 0xCC, 0xBB, 0xAA, 0x00, 0x02, 0x54, 0x31, 0x01, 0x00]);
    assert_eq!(rt, expect);
    assert_eq!(parse_eip_session(&[0, 0, 0, 0, 0x78, 0x56, 0x34, 0x12]), Some(0x12345678));
    assert_eq!(parse_eip_session(&[0u8; 7]), None);
    let mut cc = vec![0u8; 48];
    cc[44] = 9;
    assert_eq!(parse_cip_connection_id(&cc), Some(9));
    assert_eq!(parse_cip_connection_id(&[0u8; 47]), None);
    let mut data = vec![0u8; 26];
    data.extend_from_slice(&[0xC4, 0x00]);
    data.extend_from_slice(&2.0f32.to_le_bytes());
    assert_eq!(parse_cip_data(&data, "float32"), Some(RawValue::Float32(2.0f32.to_bits())));
    data[26] = 0xC3;
    assert_eq!(parse_cip_data(&data, "int32"), Some(RawValue::Signed(0x40000000)));
    data[26] = 0xC2;
    data[28] = 0xFF;
    data[29] = 0xFF;
    assert_eq!(parse_cip_data(&data, "int16"), Some(RawValue::Signed(-1)));
    data[26] = 0xC1;
    assert_eq!(parse_cip_data(&data, "bool"), Some(RawValue::Flag(true)));
    data[26] = 0xC0;
    assert_eq!(parse_cip_data(&data, "bool"), None);
    assert_eq!(parse_cip_data(&[0u8; 29], "bool"), None);
}

#[test]
fn bacnet_frames() {
    assert_eq!(
        build_bacnet_unconfirmed_req(1234, 8),
        vec![0x81, 0x0A, 0x00, 0x0D, 0x01, 0x10, 0x08, 0x00, 0x00, 0x04, 0xD2, 0x00, 0x00]
    );
    assert_eq!(
        build_bacnet_read_property(1, 0, 5, 85),
        vec![0x81, 0x0A, 0x00, 0x0E, 0x01, 0x00, 0x05, 0x01, 0x0C, 0x00, 0x00, 0x00, 0x05, 0x55]
    );
    assert_eq!(build_bacnet_read_property(1, 3, 1, 85)[9..13], [0x00, 0xC0, 0x00, 0x01]);
    assert_eq!(bacnet_object_type("bool"), 3);
    assert_eq!(bacnet_object_type("float32"), 0);
    let mut buf = vec![0x81u8, 0x0A, 0x00, 0x14];
    buf.extend_from_slice(&[0x30, 0x01, 0x21, 0x05, 0x45]);
    buf.extend_from_slice(&21.5f32.to_be_bytes());
    buf.extend_from_slice(&[0, 0, 0]);
    assert_eq!(parse_bacnet_value(&buf), Some(RawValue::Float32(21.5f32.to_bits())));
    let mut nope = buf.clone();
    nope[4] = 0x50;
    assert_eq!(parse_bacnet_value(&nope), None);
    assert_eq!(parse_bacnet_value(&[0x81u8, 0x0A, 0, 0, 0x30, 0, 0, 0, 0, 0, 0]), None);
}

#[test]
fn dlt645_frames() {
    assert_eq!(format_addr(123456789012), vec![0x12, 0x90, 0x78, 0x56, 0x34, 0x12]);
    assert_eq!(format_addr(1), vec![0x01, 0, 0, 0, 0, 0]);
    assert_eq!(format_addr(1_234_567_890_123_456), vec![0x56, 0x34, 0x12, 0x90, 0x78, 0x56]);
    assert_eq!(decode_data_identifier(&0x0102, "3"), [0, 0, 0x01, 0x02]);
    for addr in [0u64, 7, 99, 123456789012, 999_999_999_999, 1_234_567_890_123_456, u64::MAX] {
        let bytes = format_addr(addr);
        let mut value: u64 = 0;
        for b in bytes.iter().rev() {
            value = value * 100 + ((b >> 4) as u64 * 10 + (b & 0x0F) as u64);
        }
        assert_eq!(value, addr % 1_000_000_000_000);
    }
    let addr = format_addr(123456789012);
    assert_eq!(
        build_645_read_frame(&addr, &[0, 0, 0x01, 0x02], false),
        vec![0x68, 0x12, 0x90, 0x78, 0x56, 0x34, 0x12, 0x68, 0x11, 0x04, 0x00, 0x00, 0x01, 0x02, 0x36, 0x16]
    );
    assert_eq!(build_645_read_frame(&addr, &[0, 0, 0x01, 0x02], true)[8], 0x01);
    let mut resp = vec![0xFEu8, 0x68, 1, 2, 3, 4, 5, 6, 0x68, 0x91, 0x04];
    resp.extend_from_slice(&[0x89, 0x67, 0x45, 0x33]);
    resp.extend_from_slice(&[0x00, 0x16]);
    assert_eq!(parse_645_response(&resp), Ok(Some(vec![0, 12, 34, 56])));
    let mut dotted = vec![0x68u8, 1, 2, 3, 4, 5, 6, 0x68, 0x91, 0x03];
    dotted.extend_from_slice(&[0x61, 0x3C, 0xFF]);
    dotted.extend_from_slice(&[0x00, 0x16]);
    assert_eq!(parse_645_response(&dotted), Ok(Some(vec![9])));
    assert_eq!(parse_645_response(&[0u8, 0x68, 0, 0, 0, 0, 0, 0, 0, 0]), Err(FrameFault));
    assert_eq!(parse_645_response(&[0u8; 12]), Ok(None));
    assert_eq!(parse_645_response(&[0x68u8; 5]), Ok(None));
    assert_eq!(DLT645Driver::new(true).protocol_name(), "DL/T645-1997");
    assert_eq!(DLT645Driver::new(false).protocol_name(), "DL/T645-2007");
}

#[test]
fn profibus_frames() {
    assert_eq!(build_profibus_dp_read(2), vec![0x68, 0x03, 0x03, 0x68, 0x02, 0x01, 0x7C, 0x55, 0x16]);
    let resp = [0x68u8, 7, 7, 0x68, 0, 0, 0x08, 0x34, 0x12, 0xFF, 0xFF, 0, 0, 0];
    let input = parse_profibus_response(&resp).unwrap();
    assert_eq!(input, vec![0x34, 0x12, 0xFF, 0xFF]);
    let pts = vec![point("a", "", 0, 1, "uint16"), point("b", "", 0, 1, "int16"), point("c", "", 0, 1, "bool")];
    assert_eq!(
        profibus_readings(&input, &pts),
        vec![Some(RawValue::Unsigned(0x1234)), Some(RawValue::Signed(-1)), None]
    );
    assert_eq!(decode_profibus_value(5, "bool"), RawValue::Flag(true));
    assert_eq!(decode_profibus_value(0x8000, "int16"), RawValue::Signed(-32768));
    assert_eq!(decode_profibus_value(0x8000, "float32"), RawValue::Unsigned(0x8000));
    assert_eq!(parse_profibus_response(&[0x68u8, 2, 2, 0x68, 0, 0, 0x08, 0, 0]), Err(FrameFault));
    assert_eq!(parse_profibus_response(&[0x68u8, 3, 3, 0x68, 0, 0, 0x09, 0, 0, 0]), Ok(vec![]));
    assert_eq!(parse_profibus_response(&[0x10u8; 12]), Ok(vec![]));
}

#[test]
fn can_frames() {
    assert_eq!(decode_can_data(&1.5f32.to_le_bytes(), "float32"), RawValue::Float32(1.5f32.to_bits()));
    assert_eq!(decode_can_data(&(-2.25f64).to_le_bytes(), "float64"), RawValue::Float64((-2.25f64).to_bits()));
    assert_eq!(decode_can_data(&[0x34, 0x12], "uint16"), RawValue::Unsigned(0x1234));
    assert_eq!(decode_can_data(&[0xFE, 0xFF], "int16"), RawValue::Signed(-2));
    assert_eq!(decode_can_data(&[0xFF, 0xFF, 0xFF, 0xFF], "int32"), RawValue::Signed(-1));
    assert_eq!(decode_can_data(&[1, 0, 0, 0], "uint32"), RawValue::Unsigned(1));
    assert_eq!(decode_can_data(&[0], "bool"), RawValue::Flag(false));
    assert_eq!(decode_can_data(&[1, 2, 3], "raw"), RawValue::Unsigned(0x010203));
    assert_eq!(decode_can_data(&[1], "uint16"), RawValue::Unsigned(1));
    assert_eq!(decode_can_data(&[], "uint16"), RawValue::Unsigned(0));
    assert_eq!(decode_can_data(&[], "float32"), RawValue::Unsigned(0));
    let mut frame = [0u8; 16];
    frame[0] = 0x23;
    frame[1] = 0x01;
    frame[4] = 2;
    frame[8] = 0x10;
    frame[9] = 0x00;
    assert_eq!(can_frame_reading(&frame, 0x123, "uint16"), Some(RawValue::Unsigned(0x10)));
    assert_eq!(can_frame_reading(&frame, 0x124, "uint16"), None);
    frame[4] = 0;
    assert_eq!(can_frame_reading(&frame, 0x123, "uint16"), None);
    frame[4] = 200;
    assert_eq!(can_frame_reading(&frame, 0x123, "raw"), Some(RawValue::Unsigned(0x1000000000000000)));
}

#[test]
fn opcua_frames() {
    let body = build_hello_body();
    assert_eq!(body.len(), 48);
    assert_eq!(&body[0..24], &[0, 0, 0, 0, 0, 0, 1, 0, 0, 0, 1, 0, 0, 4, 0, 0, 10, 0, 0, 0, 24, 0, 0, 0]);
    assert_eq!(&body[24..], b"opc.tcp://localhost:4840");
    let hello = build_opcua_hello();
    assert_eq!(&hello[0..8], &[0x48, 0x45, 0x4C, 0x46, 0x30, 0, 0, 0]);
    assert_eq!(&hello[8..], &body[..]);
    let mut ack = b"ACKF".to_vec();
    ack.extend_from_slice(&[20, 0, 0, 0]);
    ack.extend_from_slice(&1.5f32.to_le_bytes());
    ack.extend_from_slice(&[0u8; 8]);
    assert_eq!(opcua_candidates(&ack), vec![1.5f32.to_bits()]);
    ack.extend_from_slice(&[0u8; 4]);
    assert_eq!(opcua_candidates(&ack), vec![1.5f32.to_bits(), 0]);
    let mut err = ack.clone();
    err[0] = b'E';
    assert!(opcua_candidates(&err).is_empty());
    assert!(opcua_candidates(&ack[0..15]).is_empty());
}

#[test]
fn mqtt_and_http_drivers() {
    assert_eq!(MqttDriver::client_id(42), "aziot-collector-42");
    assert_eq!(MqttDriver::client_id(-3), "aziot-collector--3");
    assert_eq!(MqttDriver::telemetry_topic("M1"), "neuron/M1/telemetry");
    let tcp = BusType::Tcp { host: "broker".into(), port: 1883 };
    assert_eq!(MqttDriver::broker(&tcp), Some(("broker".into(), 1883)));
    let serial = BusType::Serial { port_name: "COM1".into(), bus_param: BusParam::default() };
    assert_eq!(MqttDriver::broker(&serial), None);
    assert_eq!(HttpJsonDriver::readings_url(&tcp), Some("http://broker:1883/api/readings".into()));
    assert_eq!(HttpJsonDriver::readings_url(&serial), None);
    assert_eq!(MqttDriver::new().protocol_name(), "MQTT");
    assert_eq!(HttpJsonDriver::new().protocol_name(), "HTTP JSON");
}

#[test]
fn http_json_readings_by_key_and_by_entries() {
    let codes = vec!["a".to_string(), "b".to_string(), "c".to_string()];
    assert_eq!(
        http_json_readings(r#"{"a": 220.5, "b": "x", "c": 3}"#, &codes),
        Some(vec![Some("220.5".to_string()), None, Some("3".to_string())])
    );
    let arr = r#"[{"code":"a","value":1},{"code":"a","value":"x"},{"code":"a","value":2.5},{"code":"b","value":-7},{"value":9},5]"#;
    assert_eq!(
        http_json_readings(arr, &codes),
        Some(vec![Some("2.5".to_string()), Some("-7".to_string()), None])
    );
    assert_eq!(http_json_readings("not json", &codes), None);
    assert_eq!(http_json_readings("", &codes), None);
    assert_eq!(http_json_readings("42", &codes), Some(vec![None, None, None]));
    assert_eq!(http_json_readings("{}", &Vec::new()), Some(Vec::new()));
}

#[test]
fn mqtt_readings_by_key() {
    let codes = vec!["t".to_string(), "h".to_string(), "x".to_string()];
    assert_eq!(
        mqtt_readings(r#"{"t": 21.25, "h": 40, "x": true}"#, &codes),
        vec![Some("21.25".to_string()), Some("40".to_string()), None]
    );
    assert_eq!(mqtt_readings("", &codes), vec![None, None, None]);
    assert_eq!(mqtt_readings("{broken", &codes), vec![None, None, None]);
    assert_eq!(mqtt_readings(r#"[{"t": 1}]"#, &codes), vec![None, None, None]);
}

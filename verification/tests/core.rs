use neuron_collector::config::{http_server_url, register_endpoint, CollectorConfig};
use neuron_collector::display::{bus_short, parity_display, protocol_options, truncate};
use neuron_collector::driver::{serial_line, serial_settings, tcp_address, Driver, DriverFactory, SerialParity};
use neuron_collector::model::{
    default_baud, default_data_bits, default_parity, default_stop_bits, BusParam, BusType, ConfigDelta, Device,
    ProtocolType,
};
use neuron_collector::reporter::{alarm_kind, rule_fires, Aggregator, AlarmEngine, AlarmKind};
use neuron_collector::runner::{build_manual_device, point_statuses, CollectRun, PointStatus};
use neuron_collector::scheduler::{bus_key, judge_poll, DeltaOutcome, DeviceRegistry, PollFailure, PollOutcome, StatusChange};
use neuron_collector::model::DeviceAlarmThreshold;
use neuron_collector::uploader::{
    active_channel, broker_endpoint, fallback_http_url, parse_broker_url, publish_route, raw_publish_allowed,
    status_topic, Channel, LinkAction, LinkEvent, LinkState, PublishRoute,
};

fn serial_bus(port: &str) -> BusType {
    BusType::Serial {
        port_name: port.into(),
        bus_param: BusParam { baud: 9600, data_bits: 8, stop_bits: 1, parity: "none".into() },
    }
}

fn tcp_bus(host: &str, port: u16) -> BusType {
    BusType::Tcp { host: host.into(), port }
}

fn device(id: i64, bus: BusType) -> Device {
    Device {
        id,
        code: format!("D{}", id),
        name: "test".into(),
        protocol: ProtocolType::ModbusRTU,
        slave_addr: 1,
        bus,
        collect_interval_sec: None,
        data_points: vec![],
        alarm_config: None,
        online: false,
        consecutive_failures: 0,
        last_success_at: None,
        last_error_at: None,
        last_error_msg: String::new(),
    }
}

#[test]
fn test_parse_broker_url() {
    assert_eq!(parse_broker_url("tcp://8.163.61.99:1883"), Some(("8.163.61.99".into(), 1883)));
    assert_eq!(parse_broker_url("mqtt://localhost:1883"), Some(("localhost".into(), 1883)));
    assert_eq!(parse_broker_url("tcp://192.168.1.1:2883"), Some(("192.168.1.1".into(), 2883)));
}

#[test]
fn test_channel_state() {
    assert_eq!(Channel::Mqtt as u8, 0);
    assert_eq!(Channel::HttpFallback as u8, 1);
    assert_eq!(Channel::Disconnected as u8, 2);
}

#[test]
fn test_register_device() {
    let mut reg = DeviceRegistry::new();
    let device = Device {
        id: 1,
        code: "D1".into(),
        name: "test".into(),
        protocol: ProtocolType::ModbusRTU,
        slave_addr: 1,
        bus: BusType::Serial {
            port_name: "COM5".into(),
            bus_param: BusParam { baud: 9600, data_bits: 8, stop_bits: 1, parity: "none".into() },
        },
        collect_interval_sec: None,
        data_points: vec![],
        alarm_config: None,
        online: false,
        consecutive_failures: 0,
        last_success_at: None,
        last_error_at: None,
        last_error_msg: String::new(),
    };
    reg.register(device);
    assert!(reg.get(1).is_some());
}

#[test]
fn broker_url_edge_cases() {
    assert_eq!(parse_broker_url("localhost"), None);
    assert_eq!(parse_broker_url("tcp://host:99999"), None);
    assert_eq!(parse_broker_url("tcp://host:"), None);
    assert_eq!(parse_broker_url("tcp://host:+42"), Some(("host".into(), 42)));
    assert_eq!(parse_broker_url("tcp://mqtt://a:b:7"), Some(("a:b".into(), 7)));
    assert_eq!(broker_endpoint("tcp://broker.local"), ("broker.local".into(), 1883));
    assert_eq!(broker_endpoint("tcp://10.0.0.2:1884"), ("10.0.0.2".into(), 1884));
}

#[test]
fn protocol_partition_counts() {
    let all = [
        ProtocolType::ModbusRTU,
        ProtocolType::DL645_2007,
        ProtocolType::DL645_1997,
        ProtocolType::IEC101,
        ProtocolType::CanBus,
        ProtocolType::ProfibusDP,
        ProtocolType::ModbusTCP,
        ProtocolType::IEC104,
        ProtocolType::DNP3,
        ProtocolType::OpcUa,
        ProtocolType::BacnetIP,
        ProtocolType::S7Comm,
        ProtocolType::FinsTcp,
        ProtocolType::EthernetIP,
        ProtocolType::MitsubishiMC,
        ProtocolType::Mqtt,
        ProtocolType::SnmpV2c,
        ProtocolType::HttpJson,
    ];
    let serial = all.iter().filter(|p| p.is_serial()).count();
    let tcp = all.iter().filter(|p| p.is_tcp()).count();
    let app = all.iter().filter(|p| p.is_app_layer()).count();
    assert_eq!((serial, tcp, app), (6, 9, 3));
    for p in all.iter() {
        let n = [p.is_serial(), p.is_tcp(), p.is_app_layer()].iter().filter(|b| **b).count();
        assert_eq!(n, 1);
    }
    let mut codes: Vec<&str> = all.iter().map(|p| p.code()).collect();
    codes.sort();
    codes.dedup();
    assert_eq!(codes.len(), 18);
    assert_eq!(ProtocolType::DL645_2007.code(), "DL_T645_2007");
    assert_eq!(ProtocolType::IEC104.code(), "IEC_60870_5_104");
    assert_eq!(ProtocolType::S7Comm.display_name(), "S7 Communication");
    assert_eq!(ProtocolType::SnmpV2c.display_name(), "SNMP v2c");
}

#[test]
fn bus_param_defaults() {
    let d = BusParam::default();
    assert_eq!(d.baud, 9600);
    assert_eq!(d.data_bits, 8);
    assert_eq!(d.stop_bits, 1);
    assert_eq!(d.parity, "none");
    assert_eq!((default_baud(), default_data_bits(), default_stop_bits()), (9600, 8, 1));
    assert_eq!(default_parity(), "none");
}

#[test]
fn link_state_falls_back_after_three_poll_errors() {
    let mut s = LinkState::new();
    assert_eq!(s.step(LinkEvent::Connecting, true), LinkAction::Continue);
    assert_eq!(s.step(LinkEvent::ConnAck, true), LinkAction::PublishOnline);
    assert_eq!(s.channel, Channel::Mqtt);
    assert_eq!(s.step(LinkEvent::PollError, true), LinkAction::Reconnect { delay_secs: 2, probe_http: false });
    assert_eq!(s.step(LinkEvent::PollError, true), LinkAction::Reconnect { delay_secs: 2, probe_http: false });
    assert_eq!(s.channel, Channel::Mqtt);
    assert_eq!(s.step(LinkEvent::PollError, true), LinkAction::Reconnect { delay_secs: 30, probe_http: true });
    assert_eq!(s.channel, Channel::HttpFallback);
    assert!(!s.has_client);
    assert_eq!(publish_route(&s), PublishRoute::Http);
    assert!(!raw_publish_allowed(&s));
    assert_eq!(s.step(LinkEvent::Probe, true), LinkAction::Reconnect { delay_secs: 0, probe_http: false });
    assert_eq!(s.step(LinkEvent::Connecting, true), LinkAction::Continue);
    assert_eq!((s.channel, s.fail_count), (Channel::HttpFallback, 3));
    assert_eq!(publish_route(&s), PublishRoute::Http);
    assert_eq!(s.step(LinkEvent::ConnAck, true), LinkAction::PublishOnline);
    assert_eq!((s.channel, s.fail_count), (Channel::Mqtt, 0));
    assert_eq!(s.step(LinkEvent::Cancelled, true), LinkAction::Stop);
    assert_eq!(s.channel, Channel::Disconnected);
    assert_eq!(publish_route(&s), PublishRoute::Drop);
}

#[test]
fn link_state_reconnect_keeps_count_until_connack() {
    let mut s = LinkState::new();
    s.step(LinkEvent::Connecting, false);
    assert_eq!(s.channel, Channel::Disconnected);
    assert_eq!(publish_route(&s), PublishRoute::Drop);
    assert_eq!(s.step(LinkEvent::PollError, false), LinkAction::Reconnect { delay_secs: 2, probe_http: false });
    s.step(LinkEvent::Connecting, false);
    assert_eq!(s.fail_count, 1);
    assert_eq!(s.step(LinkEvent::PollError, false), LinkAction::Reconnect { delay_secs: 2, probe_http: false });
    s.step(LinkEvent::Connecting, false);
    assert_eq!(s.fail_count, 2);
    assert_eq!(s.step(LinkEvent::PollError, false), LinkAction::Reconnect { delay_secs: 30, probe_http: false });
    assert_eq!(s.channel, Channel::HttpFallback);
    s.step(LinkEvent::Connecting, false);
    assert_eq!(s.channel, Channel::HttpFallback);
    assert_eq!(s.step(LinkEvent::PollError, false), LinkAction::Reconnect { delay_secs: 30, probe_http: false });
    assert_eq!(s.step(LinkEvent::Other, false), LinkAction::Continue);
    assert_eq!(s.channel, Channel::HttpFallback);
}

#[test]
fn channel_names_and_topics() {
    assert_eq!(active_channel(Channel::Mqtt), "MQTT");
    assert_eq!(active_channel(Channel::HttpFallback), "HTTP-fallback");
    assert_eq!(active_channel(Channel::Disconnected), "Disconnected");
    assert_eq!(fallback_http_url("ws://h:8080/ws"), "http://h:8080/ws");
    assert_eq!(fallback_http_url("wss://h/ws"), "https://h/ws");
    assert_eq!(fallback_http_url("http://h/x"), "http://h/x");
    assert_eq!(status_topic("neuron", "c1"), "neuron/c1/status");
    let s = LinkState::new();
    assert_eq!(publish_route(&s), PublishRoute::Drop);
    let mut m = LinkState::new();
    m.step(LinkEvent::ConnAck, false);
    assert_eq!(publish_route(&m), PublishRoute::MqttUnavailable);
}

#[test]
fn registry_groups_and_removal() {
    let mut reg = DeviceRegistry::new();
    reg.register(device(1, serial_bus("COM1")));
    reg.register(device(2, serial_bus("COM1")));
    reg.register(device(3, tcp_bus("10.0.0.5", 502)));
    assert_eq!(reg.bus_groups.len(), 2);
    assert_eq!(reg.bus_groups[0].key, "COM1");
    assert_eq!(reg.bus_groups[0].ids, vec![1, 2]);
    assert_eq!(reg.bus_groups[1].key, "10.0.0.5:502");
    reg.register(device(1, tcp_bus("10.0.0.5", 502)));
    assert_eq!(reg.bus_groups[0].ids, vec![2]);
    assert_eq!(reg.bus_groups[1].ids, vec![3, 1]);
    reg.remove(2);
    assert_eq!(reg.bus_groups.len(), 1);
    assert!(reg.get(2).is_none());
    assert_eq!(reg.get(1).map(|d| d.id), Some(1));
    reg.remove(42);
    assert_eq!(reg.devices.len(), 2);
    assert_eq!(bus_key(&device(9, tcp_bus("h", 1))), "h:1");
}

#[test]
fn registry_default_is_empty() {
    let reg = DeviceRegistry::default();
    assert!(reg.devices.is_empty());
    assert!(reg.bus_groups.is_empty());
    assert!(reg.get(1).is_none());
}

#[test]
fn health_goes_offline_at_third_failure() {
    let mut reg = DeviceRegistry::new();
    let mut d = device(7, serial_bus("COM2"));
    d.online = true;
    reg.register(d);
    assert_eq!(reg.record_failure(7, 100, "e1".into()), None);
    assert_eq!(reg.record_failure(7, 101, "e2".into()), None);
    assert!(reg.get(7).unwrap().online);
    assert_eq!(reg.record_failure(7, 102, "e3".into()), Some(StatusChange::Offline));
    let dev = reg.get(7).unwrap();
    assert!(!dev.online);
    assert_eq!(dev.consecutive_failures, 3);
    assert_eq!(dev.last_error_at, Some(102));
    assert_eq!(dev.last_error_msg, "e3");
    assert_eq!(reg.record_failure(7, 103, "e4".into()), None);
    assert_eq!(reg.record_success(7, 200), Some(StatusChange::Online));
    let dev = reg.get(7).unwrap();
    assert!(dev.online);
    assert_eq!(dev.consecutive_failures, 0);
    assert_eq!(dev.last_success_at, Some(200));
    assert_eq!(dev.last_error_msg, "");
    assert_eq!(reg.record_success(7, 201), None);
    assert_eq!(reg.record_success(8, 1), None);
    assert_eq!(reg.record_failure(8, 1, "x".into()), None);
}

#[test]
fn config_delta_actions() {
    let mut reg = DeviceRegistry::new();
    let add = ConfigDelta { version: 1, action: "add".into(), device: Some(device(123, serial_bus("COM3"))) };
    assert_eq!(reg.apply_delta(add), DeltaOutcome::Registered(123));
    assert!(reg.get(123).is_some());
    let upd = ConfigDelta { version: 2, action: "update".into(), device: Some(device(123, tcp_bus("h", 2))) };
    assert_eq!(reg.apply_delta(upd), DeltaOutcome::Registered(123));
    assert_eq!(reg.bus_groups.len(), 1);
    assert_eq!(reg.bus_groups[0].key, "h:2");
    let missing = ConfigDelta { version: 3, action: "add".into(), device: None };
    assert_eq!(reg.apply_delta(missing), DeltaOutcome::MissingDevice);
    let unknown = ConfigDelta { version: 4, action: "purge".into(), device: Some(device(5, serial_bus("C"))) };
    assert_eq!(reg.apply_delta(unknown), DeltaOutcome::UnknownAction);
    assert!(reg.get(5).is_none());
    let rm = ConfigDelta { version: 5, action: "remove".into(), device: Some(device(123, tcp_bus("h", 2))) };
    assert_eq!(reg.apply_delta(rm), DeltaOutcome::Removed(123));
    assert!(reg.get(123).is_none());
    assert!(reg.bus_groups.is_empty());
}

#[test]
fn driver_factory_covers_every_protocol() {
    let mut d = device(1, serial_bus("can0"));
    d.protocol = ProtocolType::CanBus;
    assert!(matches!(DriverFactory::create(&d, true), Some(Driver::CanBus(_))));
    assert_eq!(DriverFactory::create(&d, false), None);
    d.protocol = ProtocolType::ProfibusDP;
    assert_eq!(DriverFactory::create(&d, false), None);
    d.protocol = ProtocolType::DL645_1997;
    match DriverFactory::create(&d, false) {
        Some(Driver::Dlt645(drv)) => assert!(drv.is_1997),
        _ => panic!("expected a DL/T645 driver"),
    }
    d.protocol = ProtocolType::HttpJson;
    assert!(matches!(DriverFactory::create(&d, false), Some(Driver::HttpJson(_))));
    assert_eq!(tcp_address(&tcp_bus("1.2.3.4", 502)), Some("1.2.3.4:502".into()));
    assert_eq!(tcp_address(&serial_bus("COM1")), None);
    assert_eq!(serial_line(&serial_bus("COM1")).map(|(p, b)| (p, b.baud)), Some(("COM1".into(), 9600)));
    assert!(serial_line(&tcp_bus("h", 1)).is_none());
}

#[test]
fn driver_names_are_display_names() {
    let all = [
        ProtocolType::ModbusRTU, ProtocolType::DL645_2007, ProtocolType::DL645_1997, ProtocolType::IEC101,
        ProtocolType::CanBus, ProtocolType::ProfibusDP, ProtocolType::ModbusTCP, ProtocolType::IEC104,
        ProtocolType::DNP3, ProtocolType::OpcUa, ProtocolType::BacnetIP, ProtocolType::S7Comm,
        ProtocolType::FinsTcp, ProtocolType::EthernetIP, ProtocolType::MitsubishiMC, ProtocolType::Mqtt,
        ProtocolType::SnmpV2c, ProtocolType::HttpJson,
    ];
    let mut d = device(1, serial_bus("COM1"));
    for p in all {
        d.protocol = p;
        let drv = DriverFactory::create(&d, true).expect("a driver for every protocol on Linux");
        assert_eq!(drv.protocol_name(), p.display_name());
    }
    d.protocol = ProtocolType::DL645_1997;
    assert_eq!(DriverFactory::create(&d, false).unwrap().protocol_name(), "DL/T645-1997");
    d.protocol = ProtocolType::S7Comm;
    assert_eq!(DriverFactory::create(&d, false).unwrap().protocol_name(), "S7 Communication");
}

#[test]
fn serial_settings_mapping() {
    let p = BusParam { baud: 19200, data_bits: 7, stop_bits: 2, parity: "even".into() };
    let s = serial_settings(&p);
    assert_eq!((s.baud, s.data_bits, s.stop_bits, s.parity), (19200, 7, 2, SerialParity::Even));
    let q = BusParam { baud: 9600, data_bits: 9, stop_bits: 3, parity: "mark".into() };
    let t = serial_settings(&q);
    assert_eq!((t.data_bits, t.stop_bits, t.parity), (8, 1, SerialParity::NoParity));
    let o = BusParam { baud: 1200, data_bits: 5, stop_bits: 1, parity: "odd".into() };
    assert_eq!(serial_settings(&o).parity, SerialParity::Odd);
}

#[test]
fn display_helpers() {
    let opts = protocol_options();
    assert_eq!(opts.len(), 13);
    assert_eq!(opts[0].0, "Modbus RTU");
    assert_eq!(opts[12].1, ProtocolType::MitsubishiMC);
    for (label, p) in opts.iter() {
        assert_eq!(label.as_str(), p.display_name());
    }
    assert_eq!(bus_short(&serial_bus("COM5")), "COM5 @9600");
    assert_eq!(bus_short(&tcp_bus("10.1.1.1", 102)), "10.1.1.1:102");
    assert_eq!(parity_display("none"), "N");
    assert_eq!(parity_display("E"), "E");
    assert_eq!(parity_display("odd"), "O");
    assert_eq!(parity_display("space"), "S");
    assert_eq!(parity_display("mark"), "M");
    assert_eq!(parity_display("weird"), "weird");
    assert_eq!(truncate("abcdef", 4), "abc…");
    assert_eq!(truncate("abcd", 4), "abcd");
    assert_eq!(truncate("温度传感器", 3), "温度…");
    assert_eq!(truncate("", 0), "");
}

#[test]
fn manual_device_shape() {
    let d = build_manual_device(ProtocolType::ModbusTCP, tcp_bus("h", 502), 3, 40, 2, "3", "float32", "ABCD");
    assert_eq!(d.id, 9999);
    assert_eq!(d.code, "MANUAL");
    assert_eq!(d.slave_addr, 3);
    assert!(d.online);
    assert_eq!(d.data_points.len(), 1);
    let p = &d.data_points[0];
    assert_eq!(p.sensor_code, "manual_test");
    assert_eq!((p.register_address, p.register_count), (40, 2));
    assert_eq!(f64::from_bits(p.coefficient_bits), 1.0);
    assert_eq!(f64::from_bits(p.offset_bits), 0.0);
    assert_eq!(p.unit, "raw");
}

#[test]
fn collector_config_defaults_and_server_url() {
    let c = CollectorConfig::default();
    assert_eq!(c.mqtt.broker, "tcp://127.0.0.1:1883");
    assert_eq!(c.mqtt.client_id, "aziot-collector-01");
    assert_eq!(c.mqtt.topic_prefix, "neuron");
    assert!(c.fallback.enabled);
    assert_eq!(c.server_url(), "http://127.0.0.1:8080");
    let mut d = CollectorConfig::default();
    d.fallback.ws_url = "ws://10.2.3.4:9090/ws".into();
    assert_eq!(d.server_url(), "http://10.2.3.4:9090");
    d.fallback.ws_url = "ws://server.example/ws".into();
    assert_eq!(d.server_url(), "http://server.example:8080");
    d.fallback.ws_url = "not a url".into();
    assert_eq!(d.server_url(), "");
    d.fallback.ws_url = String::new();
    assert_eq!(d.server_url(), "");
    assert_eq!(http_server_url(None), "");
    assert_eq!(http_server_url(Some((None, None))), "http://127.0.0.1:8080");
    assert_eq!(http_server_url(Some((Some("a".into()), Some(1)))), "http://a:1");
}

#[test]
fn collector_config_from_toml() {
    let doc = "[mqtt]\nbroker = \"tcp://1.2.3.4:1883\"\nclient_id = \"c-9\"\nusername = \"u\"\npassword = 5\ntopic_prefix = \"p\"\n[fallback]\nws_url = \"ws://x:1/ws\"\nenabled = false\n";
    let c = CollectorConfig::from_toml(doc).expect("complete document");
    assert_eq!(c.mqtt.broker, "tcp://1.2.3.4:1883");
    assert_eq!(c.mqtt.client_id, "c-9");
    assert_eq!(c.mqtt.username, "u");
    assert_eq!(c.mqtt.password, "");
    assert_eq!(c.mqtt.topic_prefix, "p");
    assert_eq!(c.fallback.ws_url, "ws://x:1/ws");
    assert!(!c.fallback.enabled);
    let no_enabled = "[mqtt]\nbroker = \"b\"\nclient_id = \"c\"\nusername = \"u\"\npassword = \"p\"\ntopic_prefix = \"t\"\n[fallback]\nws_url = \"w\"\n";
    assert!(CollectorConfig::from_toml(no_enabled).is_none());
    let odd_enabled = "[mqtt]\nbroker = \"b\"\nclient_id = 1\nusername = \"u\"\npassword = \"p\"\ntopic_prefix = 2\n[fallback]\nws_url = 3\nenabled = \"yes\"\n";
    let o = CollectorConfig::from_toml(odd_enabled).expect("present settings");
    assert_eq!(o.mqtt.client_id, "aziot-collector-01");
    assert_eq!(o.mqtt.topic_prefix, "neuron");
    assert_eq!(o.fallback.ws_url, "ws://127.0.0.1:8080/ws/collector");
    assert!(o.fallback.enabled);
    assert!(CollectorConfig::from_toml("[mqtt\nbroken").is_none());
    assert!(CollectorConfig::from_toml("[mqtt]\nbroker = 1\n").is_none());
}

#[test]
fn register_endpoint_paths() {
    assert_eq!(register_endpoint(""), None);
    assert_eq!(register_endpoint("http://h:8080"), Some("http://h:8080/api/v1/collectors/register".into()));
    assert_eq!(register_endpoint("http://h:8080//"), Some("http://h:8080/api/v1/collectors/register".into()));
    assert_eq!(register_endpoint("/"), Some("/api/v1/collectors/register".into()));
}

#[test]
fn aggregator_windows() {
    let sec: i64 = 1_000_000_000;
    let mut a = Aggregator::new(5, 60);
    a.push(5, "ua", 1.5f64.to_bits(), 0);
    a.push(5, "ub", 2.0f64.to_bits(), 10 * sec);
    a.push(5, "ua", 2.5f64.to_bits(), 20 * sec);
    assert!(!a.is_ready(59 * sec));
    assert!(a.is_ready(60 * sec));
    let out = a.flush(60 * sec);
    assert_eq!(out.len(), 1);
    assert_eq!(out[0].sensor_code, "ua");
    assert_eq!(out[0].samples, vec![1.5f64.to_bits(), 2.5f64.to_bits()]);
    assert_eq!(out[0].started_at, 0);
    assert!(!a.is_ready(60 * sec));
    assert!(a.is_ready(70 * sec));
    a.push(5, "ua", 3.0f64.to_bits(), 80 * sec);
    let out = a.flush(80 * sec);
    assert_eq!(out.len(), 1);
    assert_eq!(out[0].sensor_code, "ub");
    assert!(!a.is_ready(139 * sec));
    assert!(a.is_ready(140 * sec));
    a.reset();
    assert!(!a.is_ready(i64::MAX));
    assert_eq!(a.windows.len(), 0);
}

#[test]
fn alarm_rules_and_kinds() {
    let rule = |code: &str, kind: &str, enabled: bool| DeviceAlarmThreshold {
        sensor_code: code.into(),
        alarm_type: kind.into(),
        enabled,
        level: "warning".into(),
        params: "{\"upper\": 10}".into(),
    };
    let cfg = Some(vec![rule("ua", "limit_upper", true), rule("ua", "limit_lower", false), rule("ib", "limit_both", true)]);
    let e = AlarmEngine::new(&cfg);
    assert_eq!(e.rules_for("ua").map(|v| v.len()), Some(1));
    assert_eq!(e.rules_for("ib").map(|v| v[0].alarm_type.clone()), Some("limit_both".into()));
    assert!(e.rules_for("zz").is_none());
    assert!(AlarmEngine::new(&None).rules_for("ua").is_none());
    assert_eq!(alarm_kind("limit_upper"), AlarmKind::LimitUpper);
    assert_eq!(alarm_kind("limit_lower"), AlarmKind::LimitLower);
    assert_eq!(alarm_kind("limit_both"), AlarmKind::LimitBoth);
    assert_eq!(alarm_kind("rate_rise"), AlarmKind::Unsupported);
    assert!(rule_fires(AlarmKind::LimitUpper, Some(true), None));
    assert!(!rule_fires(AlarmKind::LimitUpper, None, Some(true)));
    assert!(rule_fires(AlarmKind::LimitLower, None, Some(true)));
    assert!(rule_fires(AlarmKind::LimitBoth, Some(false), Some(true)));
    assert!(!rule_fires(AlarmKind::LimitBoth, Some(false), Some(false)));
    assert!(!rule_fires(AlarmKind::Unsupported, Some(true), Some(true)));
}

#[test]
fn poll_judgement_and_recording() {
    let points = vec!["ua".to_string(), "ub".to_string(), "uc".to_string()];
    let got = PollOutcome::Collected(vec!["ub".to_string(), "zz".to_string(), "ua".to_string()]);
    assert_eq!(judge_poll(&got, &points), (None, vec![true, true, false]));
    let empty = PollOutcome::Collected(Vec::new());
    assert_eq!(judge_poll(&empty, &points), (Some(PollFailure::EmptyResult), vec![false, false, false]));
    let failed = PollOutcome::Failed(PollFailure::Timeout);
    assert_eq!(judge_poll(&failed, &points), (Some(PollFailure::Timeout), vec![false, false, false]));
    assert_eq!(PollFailure::EmptyResult.error_type(), "empty_result");
    assert_eq!(PollFailure::IoError.error_type(), "io_error");
    assert_eq!(PollFailure::ParseError.error_type(), "parse_error");
    assert_eq!(PollFailure::UnknownError.error_type(), "unknown_error");
    assert_eq!(PollFailure::DriverPanic.error_type(), "driver_panic");
    assert_eq!(PollFailure::Timeout.error_type(), "timeout");

    let mut reg = DeviceRegistry::new();
    let mut d = device(5, serial_bus("COM3"));
    d.online = true;
    reg.register(d);
    let (c1, f1, _) = reg.record_poll(5, 10, &empty, &points, "ignored".into());
    assert_eq!((c1, f1), (None, Some(PollFailure::EmptyResult)));
    assert_eq!(reg.get(5).unwrap().last_error_msg, "empty result (no data points collected)");
    let (c2, _, _) = reg.record_poll(5, 11, &failed, &points, "timeout after 5s".into());
    assert_eq!(c2, None);
    assert_eq!(reg.get(5).unwrap().last_error_msg, "timeout after 5s");
    let (c3, _, p3) = reg.record_poll(5, 12, &failed, &points, "timeout after 5s".into());
    assert_eq!((c3, p3), (Some(StatusChange::Offline), vec![false, false, false]));
    assert_eq!(reg.get(5).unwrap().consecutive_failures, 3);
    let (c4, f4, p4) = reg.record_poll(5, 13, &got, &points, String::new());
    assert_eq!((c4, f4, p4), (Some(StatusChange::Online), None, vec![true, true, false]));
    let dev = reg.get(5).unwrap();
    assert!(dev.online);
    assert_eq!((dev.consecutive_failures, dev.last_success_at), (0, Some(13)));
    assert_eq!(reg.record_poll(6, 1, &failed, &points, "x".into()).0, None);
}

#[test]
fn manual_test_point_statuses() {
    let points = vec!["a".to_string(), "b".to_string()];
    assert_eq!(
        point_statuses(&CollectRun::Returned(vec!["b".to_string()]), &points),
        vec![PointStatus::NoValue, PointStatus::Value]
    );
    assert_eq!(point_statuses(&CollectRun::Failed, &points), vec![PointStatus::Failed, PointStatus::Failed]);
    assert_eq!(
        point_statuses(&CollectRun::Unavailable, &points),
        vec![PointStatus::Unavailable, PointStatus::Unavailable]
    );
    assert!(point_statuses(&CollectRun::Failed, &Vec::new()).is_empty());
}

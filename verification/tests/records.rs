use neuron_collector::model::DeviceAlarmThreshold;
use neuron_collector::reporter::first_firing_rule;
use neuron_collector::storage::{cleanup_expired_lines, delete_up_to_lines, is_blank_line, is_text_less, next_entry_id};
use neuron_collector::telemetry::{heartbeat_topic, usage_mb};
use neuron_collector::text::parse_hex_field;
use neuron_collector::uploader::{collector_topic, post_accepted, probe_reachable, reading_topic, CollectorTopic};

fn stored(id: u64, code: &str, created: &str) -> String {
    format!(
        "{{\"id\":{},\"device_id\":1,\"sensor_code\":\"{}\",\"avg\":1.0,\"max\":1.0,\"min\":1.0,\"sample_count\":1,\"window_start\":\"\",\"window_end\":\"\",\"created_at\":\"{}\"}}",
        id, code, created
    )
}

#[test]
fn delete_drops_flushed_and_blank_lines() {
    let lines = vec![
        stored(1, "t1", "2026-01-01T00:00:00"),
        "   ".to_string(),
        stored(2, "t2", "2026-01-01T00:00:01"),
        "not json".to_string(),
        stored(3, "t3", "2026-01-01T00:00:02"),
    ];
    let (kept, deleted) = delete_up_to_lines(&lines, 2);
    assert_eq!(deleted, 2);
    assert_eq!(kept, vec!["not json".to_string(), stored(3, "t3", "2026-01-01T00:00:02")]);
    let (kept_all, none) = delete_up_to_lines(&lines, 0);
    assert_eq!(none, 0);
    assert_eq!(kept_all.len(), 4);
    let single = vec![stored(1, "t1", "")];
    let (left, gone) = delete_up_to_lines(&single, 1);
    assert_eq!((left.len(), gone), (0, 1));
}

#[test]
fn cleanup_drops_expired_lines() {
    let lines = vec![
        stored(1, "a", "2026-01-01T00:00:00"),
        stored(2, "b", "2026-02-01T00:00:00"),
        "{\"id\":3}".to_string(),
        String::new(),
    ];
    let (kept, removed) = cleanup_expired_lines(&lines, "2026-01-15T00:00:00");
    assert_eq!(removed, 1);
    assert_eq!(kept, vec![stored(2, "b", "2026-02-01T00:00:00"), "{\"id\":3}".to_string()]);
    assert!(is_text_less("2026-01-01", "2026-01-02"));
    assert!(is_text_less("abc", "abcd"));
    assert!(!is_text_less("abcd", "abc"));
    assert!(!is_text_less("b", "abc"));
    assert!(!is_text_less("same", "same"));
}

#[test]
fn next_id_follows_largest() {
    assert_eq!(next_entry_id(&vec![]), Some(1));
    let lines = vec![stored(4, "a", ""), stored(9, "b", ""), "junk".to_string(), stored(2, "c", "")];
    assert_eq!(next_entry_id(&lines), Some(10));
    assert_eq!(next_entry_id(&vec![format!("{{\"id\":{}}}", u64::MAX)]), None);
}

#[test]
fn heartbeat_figures() {
    assert_eq!(heartbeat_topic("c-1"), "neuron/c-1/heartbeat");
    let u = usage_mb(3 * 1024 * 1024 + 5, 8 * 1024 * 1024, Some((10 * 1024 * 1024, 4 * 1024 * 1024 + 1)));
    assert_eq!((u.memory_used_mb, u.memory_total_mb, u.disk_used_mb, u.disk_total_mb), (3, 8, 5, 10));
    let v = usage_mb(0, 1, None);
    assert_eq!((v.disk_used_mb, v.disk_total_mb), (0, 0));
}

#[test]
fn uploader_statuses_and_topics() {
    assert!(probe_reachable(200));
    assert!(probe_reachable(204));
    assert!(probe_reachable(405));
    assert!(!probe_reachable(404));
    assert!(!probe_reachable(302));
    assert!(post_accepted(201));
    assert!(!post_accepted(405));
    assert_eq!(reading_topic("neuron", 17), "neuron/17/reading");
    assert_eq!(reading_topic("p", -1), "p/-1/reading");
    assert_eq!(collector_topic("c1", CollectorTopic::Status), "neuron/c1/status");
    assert_eq!(collector_topic("c1", CollectorTopic::Reading), "neuron/c1/reading");
    assert_eq!(collector_topic("c1", CollectorTopic::Alarm), "neuron/c1/alarm");
    assert_eq!(collector_topic("c1", CollectorTopic::Heartbeat), "neuron/c1/heartbeat");
}

#[test]
fn first_firing_rule_in_order() {
    let rule = |kind: &str| DeviceAlarmThreshold {
        sensor_code: "ua".into(),
        alarm_type: kind.into(),
        enabled: true,
        level: "critical".into(),
        params: "{}".into(),
    };
    let rules = vec![rule("rate_rise"), rule("limit_lower"), rule("limit_both")];
    let above = vec![Some(true), Some(true), Some(true)];
    let below = vec![Some(false), None, Some(false)];
    assert_eq!(first_firing_rule(&rules, &above, &below), Some(2));
    let below2 = vec![Some(false), Some(true), Some(false)];
    assert_eq!(first_firing_rule(&rules, &above, &below2), Some(1));
    let none = vec![None, None, None];
    assert_eq!(first_firing_rule(&rules, &none, &none), None);
    assert_eq!(first_firing_rule(&vec![], &vec![], &vec![]), None);
}

#[test]
fn hex_fields_of_the_console() {
    assert_eq!(parse_hex_field("0x1F", 255), Some(31));
    assert_eq!(parse_hex_field("01", 255), Some(1));
    assert_eq!(parse_hex_field("ff", 255), Some(255));
    assert_eq!(parse_hex_field("100", 255), None);
    assert_eq!(parse_hex_field("+a", 255), Some(10));
    assert_eq!(parse_hex_field("0x0x10", 65535), Some(16));
    assert_eq!(parse_hex_field("zz", 255), None);
    assert_eq!(parse_hex_field("", 255), None);
    assert_eq!(parse_hex_field("0x", 255), None);
    assert_eq!(parse_hex_field("ABCD", 65535), Some(0xABCD));
}

#[test]
fn blank_lines_match_str_trim() {
    assert!(is_blank_line(""));
    assert!(is_blank_line(" \t\r\n"));
    assert!(is_blank_line("\u{3000}\u{A0}"));
    assert!(!is_blank_line(" a "));
    assert!(!is_blank_line("\u{200B}"));
    let mut buf = [0u8; 4];
    for c in (0u32..=0x10FFFF).filter_map(char::from_u32) {
        let s: &str = c.encode_utf8(&mut buf);
        assert_eq!(is_blank_line(s), s.trim().is_empty(), "U+{:04X}", c as u32);
    }
}

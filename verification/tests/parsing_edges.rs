use rauc_health::config::HealthConfig;
use rauc_health::openrc::{collect_failed_services, parse_services_map};

#[test]
fn separator_token_is_ignored_positionally() {
    let bracketed = parse_services_map("cron [ started ]\n");
    let lettered = parse_services_map("cron X started\n");
    assert_eq!(bracketed.get("cron").map(String::as_str), Some("started"));
    assert_eq!(lettered.get("cron").map(String::as_str), Some("started"));
}

#[test]
fn empty_text_parses_to_an_empty_snapshot() {
    let m = parse_services_map("");
    assert_eq!(m.len(), 0);
    assert!(m.get("cron").is_none());
}

#[test]
fn lone_newlines_parse_to_an_empty_snapshot() {
    let m = parse_services_map("\n\n\n");
    assert_eq!(m.len(), 0);
}

#[test]
fn last_line_without_newline_still_counts() {
    let m = parse_services_map("cron [ started ]");
    assert_eq!(m.get("cron").map(String::as_str), Some("started"));
}

#[test]
fn crlf_line_endings_are_tolerated() {
    let m = parse_services_map("cron [ started ]\r\nsshd [ stopped ]\r\n");
    assert_eq!(m.get("cron").map(String::as_str), Some("started"));
    assert_eq!(m.get("sshd").map(String::as_str), Some("stopped"));
}

#[test]
fn fourth_token_and_beyond_are_ignored() {
    let m = parse_services_map("cron [ started ] and more words\n");
    assert_eq!(m.get("cron").map(String::as_str), Some("started"));
}

#[test]
fn prefix_ignore_spares_every_matching_name() {
    let input = "getty.tty1 [ stopped ]\nagetty.ttyS0 [ crashed ]\n";
    let cfg = HealthConfig {
        required_services: vec!["getty.tty1".to_string(), "agetty.ttyS0".to_string()],
        ..Default::default()
    };
    let failed = collect_failed_services(input, &cfg);
    assert!(failed.is_empty());
}

#[test]
fn ignore_entries_do_not_match_by_accident() {
    // `local2` neither equals the exact entry `local` nor carries an
    // ignored prefix, so it must still fail.
    let input = "local2 [ stopped ]\n";
    let cfg = HealthConfig {
        required_services: vec!["local2".to_string()],
        ..Default::default()
    };
    let failed = collect_failed_services(input, &cfg);
    assert_eq!(failed.len(), 1);
    assert_eq!(failed[0].name, "local2");
    assert_eq!(failed[0].status, "stopped");
}

#[test]
fn failures_keep_required_list_order() {
    let input = "b [ stopped ]\n";
    let cfg = HealthConfig {
        required_services: vec!["a".to_string(), "b".to_string(), "c".to_string()],
        ..Default::default()
    };
    let failed = collect_failed_services(input, &cfg);
    assert_eq!(failed.len(), 3);
    assert_eq!(failed[0].name, "a");
    assert_eq!(failed[0].status, "missing");
    assert_eq!(failed[1].name, "b");
    assert_eq!(failed[1].status, "stopped");
    assert_eq!(failed[2].name, "c");
    assert_eq!(failed[2].status, "missing");
}

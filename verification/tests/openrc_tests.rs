use rauc_health::config::HealthConfig;
use rauc_health::controller::{
    check_openrc_and_mark_with, check_openrc_and_mark_with_cfg, CheckOpenrcArgs, ScriptedDeps,
};
use rauc_health::openrc::{collect_failed_services, decide_health, parse_services_map, HealthDecision};

fn cron_cfg() -> HealthConfig {
    HealthConfig { required_services: vec!["cron".to_string()], ..Default::default() }
}

fn sshd_cfg() -> HealthConfig {
    HealthConfig { required_services: vec!["sshd".to_string()], ..Default::default() }
}

fn tty_cfg() -> HealthConfig {
    HealthConfig { required_services: vec!["getty.tty1".to_string()], ..Default::default() }
}

fn multi_cfg() -> HealthConfig {
    HealthConfig {
        required_services: vec!["cron".into(), "sshd".into(), "dbus".into()],
        ..Default::default()
    }
}

fn args() -> CheckOpenrcArgs {
    CheckOpenrcArgs { config: None, timeout_secunds: 30, poll_interval_ms: 50 }
}

/// For timeout behavior, make it deterministic: 0 seconds timeout.
fn args_timeout_immediate() -> CheckOpenrcArgs {
    CheckOpenrcArgs { config: None, timeout_secunds: 0, poll_interval_ms: 1 }
}

fn deps_ok() -> ScriptedDeps {
    ScriptedDeps::new(vec!["Runlevel: default\ncron [ started ]\n".to_string()])
}

fn deps_bad() -> ScriptedDeps {
    ScriptedDeps::new(vec!["Runlevel: default\ncron [ stopped ]\n".to_string()])
}

// ------------------------------------------------------------
// collect_failed_services tests
// ------------------------------------------------------------

#[test]
fn collects_non_started_required_services() {
    let input = "\nRunlevel: default\ncron [ stopped ]\nsshd [ started ]\n";

    let failed = collect_failed_services(input, &cron_cfg());

    assert_eq!(failed.len(), 1);
    assert_eq!(failed[0].name, "cron");
    assert_eq!(failed[0].status, "stopped");
}

#[test]
fn ignores_non_required_services() {
    let input = "\nRunlevel: default\ncron [ stopped ]\nsshd [ started ]\n";

    let failed = collect_failed_services(input, &sshd_cfg());
    assert!(failed.is_empty());
}

#[test]
fn ignores_configured_ignored_services_even_if_required() {
    let input = "\nRunlevel: default\ngetty.tty1 [ stopped ]\n";

    let failed = collect_failed_services(input, &tty_cfg());
    assert!(failed.is_empty());
}

#[test]
fn openrc_tests_ignores_unparseable_lines() {
    let input = "\nRunlevel: default\nthis is garbage\ncron [ stopped ]\n";

    let failed = collect_failed_services(input, &cron_cfg());
    assert_eq!(failed.len(), 1);
    assert_eq!(failed[0].name, "cron");
}

#[test]
fn openrc_tests_ignores_unparseable_lines_but_keeps_parsing() {
    let input = "\nRunlevel: default\n### nonsense ###\ncron [ stopped ]\nmore garbage here\n";

    let failed = collect_failed_services(input, &cron_cfg());
    assert_eq!(failed.len(), 1);
    assert_eq!(failed[0].name, "cron");
}

#[test]
fn marks_missing_required_services_as_missing() {
    let input = "\nRunlevel: default\ncron [ started ]\n";

    let cfg = HealthConfig { required_services: vec!["sshd".into()], ..Default::default() };

    let failed = collect_failed_services(input, &cfg);

    assert_eq!(failed.len(), 1);
    assert_eq!(failed[0].name, "sshd");
    assert_eq!(failed[0].status, "missing");
}

#[test]
fn started_required_service_is_not_failed() {
    let input = "\nRunlevel: default\ncron [ started ]\n";

    let cfg = HealthConfig { required_services: vec!["cron".into()], ..Default::default() };

    let failed = collect_failed_services(input, &cfg);
    assert!(failed.is_empty());
}

#[test]
fn collects_multiple_failures_and_missing() {
    let input = "\nRunlevel: default\ncron [ stopped ]\nsshd [ started ]\n";

    let failed = collect_failed_services(input, &multi_cfg());

    assert_eq!(failed.len(), 2);
    assert!(failed.iter().any(|f| f.name == "cron" && f.status == "stopped"));
    assert!(failed.iter().any(|f| f.name == "dbus" && f.status == "missing"));
}

#[test]
fn empty_required_services_yields_no_failures() {
    let input = "\nRunlevel: default\ncron [ stopped ]\n";

    let cfg = HealthConfig { required_services: vec![], ..Default::default() };

    let failed = collect_failed_services(input, &cfg);
    assert!(failed.is_empty());
}

#[test]
fn status_is_case_sensitive_by_current_logic() {
    let input = "\nRunlevel: default\ncron [ Started ]\n";

    let cfg = HealthConfig { required_services: vec!["cron".into()], ..Default::default() };

    let failed = collect_failed_services(input, &cfg);

    assert_eq!(failed.len(), 1);
    assert_eq!(failed[0].status, "Started");
}

// ------------------------------------------------------------
// parse_services_map tests
// ------------------------------------------------------------

#[test]
fn parse_services_map_skips_empty_and_runlevel_lines() {
    let input = "\n\nRunlevel: default\nDynamic Runlevel: hotplugged\ncron [ started ]\n";

    let m = parse_services_map(input);
    assert_eq!(m.get("cron").map(String::as_str), Some("started"));
    assert_eq!(m.len(), 1);
}

#[test]
fn parse_services_map_skips_lines_with_too_few_tokens() {
    let input = "\nRunlevel: default\ncron\nsshd [\ngetty.tty1 [\ncron [ started ]\n";

    let m = parse_services_map(input);
    assert_eq!(m.len(), 1);
    assert_eq!(m.get("cron").map(String::as_str), Some("started"));
}

#[test]
fn parse_services_map_handles_tabs_and_extra_spaces() {
    let input = "cron\t[\tstarted\t]\n";
    let m = parse_services_map(input);
    assert_eq!(m.get("cron").map(String::as_str), Some("started"));
}

#[test]
fn parse_services_map_overwrites_on_duplicate_service_names() {
    let input = "\ncron [ stopped ]\ncron [ started ]\n";

    let m = parse_services_map(input);
    assert_eq!(m.get("cron").map(String::as_str), Some("started"));
}

// ------------------------------------------------------------
// decide_health tests
// ------------------------------------------------------------

#[test]
fn decide_health_good_when_no_failures() {
    let input = "cron [ started ]\n";
    let cfg = cron_cfg();

    let d = decide_health(input, &cfg);
    assert!(matches!(d, HealthDecision::Good));
}

#[test]
fn decide_health_bad_contains_failed_services() {
    let input = "cron [ stopped ]\n";
    let cfg = cron_cfg();

    let d = decide_health(input, &cfg);
    match d {
        HealthDecision::Bad(f) => {
            assert_eq!(f.len(), 1);
            assert_eq!(f[0].name, "cron");
        }
        _ => panic!("expected Bad"),
    }
}

// ------------------------------------------------------------
// check_openrc_and_mark_* tests (deps injection)
// ------------------------------------------------------------

#[test]
fn check_openrc_marks_good() {
    let mut deps = deps_ok();
    let res = check_openrc_and_mark_with(&args(), &cron_cfg(), &mut deps);
    assert!(res.is_ok());
}

#[test]
fn check_openrc_timeout_errors() {
    // deterministic: always BAD + timeout=0 => immediate mark_bad + Err
    let mut deps = deps_bad();
    let err = check_openrc_and_mark_with(&args_timeout_immediate(), &cron_cfg(), &mut deps)
        .unwrap_err();

    assert!(err.contains("OpenRC health check failed"));
}

#[test]
fn check_openrc_cfg_variant_works() {
    let mut deps = deps_ok();
    let res = check_openrc_and_mark_with_cfg(&args(), &cron_cfg(), &mut deps);
    assert!(res.is_ok());
}

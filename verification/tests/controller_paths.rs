use rauc_health::config::HealthConfig;
use rauc_health::controller::{check_openrc_and_mark_with_cfg, CheckOpenrcArgs, ScriptedDeps};

fn cron_cfg() -> HealthConfig {
    HealthConfig { required_services: vec!["cron".to_string()], ..Default::default() }
}

const GOOD: &str = "Runlevel: default\ncron [ started ]\n";
const BAD: &str = "Runlevel: default\ncron [ stopped ]\n";

fn generous_args() -> CheckOpenrcArgs {
    CheckOpenrcArgs { config: None, timeout_secunds: 30, poll_interval_ms: 50 }
}

#[test]
fn confirms_on_first_healthy_check_without_sleeping() {
    let mut deps = ScriptedDeps::new(vec![GOOD.to_string()]);

    let res = check_openrc_and_mark_with_cfg(&generous_args(), &cron_cfg(), &mut deps);

    assert!(res.is_ok());
    assert_eq!(deps.fetch_calls, 1);
    assert_eq!(deps.good_calls, 1);
    assert_eq!(deps.bad_calls, 0);
    assert_eq!(deps.sleep_calls, 0);
}

#[test]
fn zero_timeout_rolls_back_on_first_unhealthy_check() {
    let args = CheckOpenrcArgs { config: None, timeout_secunds: 0, poll_interval_ms: 1 };
    let mut deps = ScriptedDeps::new(vec![BAD.to_string()]);

    let err = check_openrc_and_mark_with_cfg(&args, &cron_cfg(), &mut deps).unwrap_err();

    assert_eq!(err, "OpenRC health check failed (timeout)");
    assert_eq!(deps.fetch_calls, 1);
    assert_eq!(deps.good_calls, 0);
    assert_eq!(deps.bad_calls, 1);
    assert_eq!(deps.sleep_calls, 0);
}

#[test]
fn sleeps_once_per_unhealthy_check_before_confirming() {
    let mut deps = ScriptedDeps::new(vec![
        BAD.to_string(),
        BAD.to_string(),
        BAD.to_string(),
        GOOD.to_string(),
    ]);

    let res = check_openrc_and_mark_with_cfg(&generous_args(), &cron_cfg(), &mut deps);

    assert!(res.is_ok());
    assert_eq!(deps.sleep_calls, 3);
    assert_eq!(deps.fetch_calls, 4);
    assert_eq!(deps.good_calls, 1);
    assert_eq!(deps.bad_calls, 0);
}

#[test]
fn deadline_cuts_off_retries() {
    // A one-second budget at a 600 ms interval: checks fall at 0 ms and
    // 600 ms, both before the deadline of 1000 ms; the check at 1200 ms is
    // past it and rolls back. Exactly two sleeps, one rollback.
    let args = CheckOpenrcArgs { config: None, timeout_secunds: 1, poll_interval_ms: 600 };
    let mut deps = ScriptedDeps::new(vec![BAD.to_string()]);

    let err = check_openrc_and_mark_with_cfg(&args, &cron_cfg(), &mut deps).unwrap_err();

    assert_eq!(err, "OpenRC health check failed (timeout)");
    assert_eq!(deps.sleep_calls, 2);
    assert_eq!(deps.fetch_calls, 3);
    assert_eq!(deps.bad_calls, 1);
    assert_eq!(deps.good_calls, 0);
}

#[test]
fn fetch_error_is_fatal_and_marks_nothing() {
    let mut deps = ScriptedDeps::new(Vec::new());

    let err = check_openrc_and_mark_with_cfg(&generous_args(), &cron_cfg(), &mut deps)
        .unwrap_err();

    assert_eq!(err, "no status text scripted");
    assert_eq!(deps.good_calls, 0);
    assert_eq!(deps.bad_calls, 0);
    assert_eq!(deps.sleep_calls, 0);
}

#[test]
fn confirm_failure_is_propagated() {
    let mut deps = ScriptedDeps::new(vec![GOOD.to_string()]);
    deps.fail_good = true;

    let err = check_openrc_and_mark_with_cfg(&generous_args(), &cron_cfg(), &mut deps)
        .unwrap_err();

    assert_eq!(err, "scripted mark-good failure");
    assert_eq!(deps.good_calls, 1);
    assert_eq!(deps.bad_calls, 0);
}

#[test]
fn rollback_failure_is_propagated() {
    let args = CheckOpenrcArgs { config: None, timeout_secunds: 0, poll_interval_ms: 1 };
    let mut deps = ScriptedDeps::new(vec![BAD.to_string()]);
    deps.fail_bad = true;

    let err = check_openrc_and_mark_with_cfg(&args, &cron_cfg(), &mut deps).unwrap_err();

    assert_eq!(err, "scripted mark-bad failure");
    assert_eq!(deps.bad_calls, 1);
    assert_eq!(deps.good_calls, 0);
}

#[test]
fn exhausted_script_repeats_its_last_text() {
    let args = CheckOpenrcArgs { config: None, timeout_secunds: 30, poll_interval_ms: 1000 };
    let mut deps = ScriptedDeps::new(vec![BAD.to_string(), GOOD.to_string()]);

    let res = check_openrc_and_mark_with_cfg(&args, &cron_cfg(), &mut deps);

    assert!(res.is_ok());
    assert_eq!(deps.sleep_calls, 1);
}

#[test]
fn zero_poll_interval_is_raised_to_one_millisecond() {
    // A one-second budget at a zero interval: the controller sleeps one
    // millisecond at a time, so the simulated clock reaches the deadline
    // after exactly one thousand sleeps, and then rolls back.
    let args = CheckOpenrcArgs { config: None, timeout_secunds: 1, poll_interval_ms: 0 };
    let mut deps = ScriptedDeps::new(vec![BAD.to_string()]);

    let err = check_openrc_and_mark_with_cfg(&args, &cron_cfg(), &mut deps).unwrap_err();

    assert!(err.contains("timeout"));
    assert_eq!(deps.sleep_calls, 1000);
    assert_eq!(deps.fetch_calls, 1001);
    assert_eq!(deps.bad_calls, 1);
}

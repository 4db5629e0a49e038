use sam::auto_demo::{
    application_in_state, applications_ready, health_reached, rejection_confirmed, rejection_settled,
    transition_finished, demo_next, showcase_next, watched_application, AutoDemoConfig, AutoDemoError, DemoAction,
    DemoStep,
};
use sam::demo::{exit_after, has_flag, health_from, reject_working_from, DemoHandler};
use sam::types::{HealthState, SystemMode, TransitionId};

fn args(values: &[&str]) -> Vec<String> {
    values.iter().map(|value| value.to_string()).collect::<Vec<_>>()
}

#[test]
fn no_flags_is_healthy() {
    assert_eq!(health_from(&args(&["binary-name"])), HealthState::Healthy);
}

#[test]
fn degraded_flag_is_degraded() {
    assert_eq!(
        health_from(&args(&["binary-name", "--degraded"])),
        HealthState::Degraded
    );
}

#[test]
fn failed_flag_wins_even_after_degraded() {
    assert_eq!(
        health_from(&args(&["binary-name", "--degraded", "--failed"])),
        HealthState::Failed
    );
}

#[test]
fn reject_working_flag_is_detected() {
    assert!(!reject_working_from(&args(&["binary-name"])));
    assert!(reject_working_from(&args(&["binary-name", "--reject-working"])));
}

#[test]
fn one_time_rejection_flag_is_detected() {
    assert!(has_flag(
        &args(&["binary-name", "--reject-working-once"]),
        "--reject-working-once"
    ));
}

#[test]
fn exit_delay_is_parsed() {
    assert_eq!(
        exit_after(&args(&["binary-name", "--exit-after-ms", "2500"])).unwrap(),
        Some(2500)
    );
    assert!(exit_after(&args(&["binary-name", "--exit-after-ms", "bad"])).is_err());
}

#[test]
fn auto_demo_defaults_are_predictable() {
    let config = AutoDemoConfig::parse(vec!["--auto-demo".to_owned()]).unwrap();

    assert!(config.enabled);
    assert!(!config.showcase);
    assert_eq!(config.expected_apps, 3);
    assert_eq!(config.timeout_secs, 15);
    assert_eq!(config.hold_ms, 1_000);
}

#[test]
fn showcase_enables_automatic_mode() {
    let config = AutoDemoConfig::parse(vec!["--auto-showcase".to_owned()]).unwrap();

    assert!(config.enabled);
    assert!(config.showcase);
}

#[test]
fn auto_demo_timing_and_application_count_are_configurable() {
    let config = AutoDemoConfig::parse(vec![
        "--auto-demo".to_owned(),
        "--expected-apps".to_owned(),
        "4".to_owned(),
        "--auto-timeout-secs".to_owned(),
        "30".to_owned(),
        "--auto-hold-ms".to_owned(),
        "250".to_owned(),
    ])
    .unwrap();

    assert_eq!(config.expected_apps, 4);
    assert_eq!(config.timeout_secs, 30);
    assert_eq!(config.hold_ms, 250);
}

#[test]
fn unknown_arguments_are_rejected() {
    assert!(matches!(
        AutoDemoConfig::parse(vec!["--surprise".to_owned()]),
        Err(AutoDemoError::UnknownArgument(_))
    ));
}

#[test]
fn missing_and_invalid_values_name_the_flag() {
    match AutoDemoConfig::parse(vec!["--expected-apps".to_owned()]) {
        Err(AutoDemoError::MissingValue(flag)) => assert_eq!(flag, "--expected-apps"),
        other => panic!("unexpected {other:?}"),
    }
    match AutoDemoConfig::parse(vec!["--auto-hold-ms".to_owned(), "-3".to_owned()]) {
        Err(AutoDemoError::InvalidValue(flag)) => assert_eq!(flag, "--auto-hold-ms"),
        other => panic!("unexpected {other:?}"),
    }
}

#[test]
fn demo_handler_rejects_working_once_then_accepts() {
    let mut handler = DemoHandler::new("telemetry", false, HealthState::Healthy).reject_working_once(true);
    assert_eq!(handler.prepare_mode(SystemMode::Standby), Ok(()));
    assert_eq!(
        handler.prepare_mode(SystemMode::Working),
        Err("telemetry configured to reject Working".to_string())
    );
    assert_eq!(handler.prepare_mode(SystemMode::Working), Ok(()));
    assert_eq!(handler.commit_mode(SystemMode::Working), Ok(()));
    assert_eq!(handler.current_mode(), SystemMode::Working);
}

#[test]
fn demo_handler_with_permanent_rejection_always_rejects_working() {
    let mut handler = DemoHandler::new("guidance", true, HealthState::Degraded);
    assert_eq!(handler.health(), HealthState::Degraded);
    assert!(handler.prepare_mode(SystemMode::Working).is_err());
    assert!(handler.prepare_mode(SystemMode::Working).is_err());
    assert_eq!(handler.current_mode(), SystemMode::Startup);
}

#[test]
fn exit_delay_errors_and_absence() {
    assert_eq!(exit_after(&args(&["binary-name"])).unwrap(), None);
    assert_eq!(
        exit_after(&args(&["binary-name", "--exit-after-ms"])),
        Err("--exit-after-ms requires a millisecond value".to_string())
    );
    assert_eq!(
        exit_after(&args(&["binary-name", "--exit-after-ms", "12x"])),
        Err("invalid --exit-after-ms value: 12x".to_string())
    );
    assert_eq!(exit_after(&args(&["--exit-after-ms", "+7"])).unwrap(), Some(7));
}

#[test]
fn auto_demo_errors_describe_themselves() {
    assert_eq!(AutoDemoError::UnknownArgument("--surprise".to_owned()).to_string(), "unknown SAM argument: --surprise");
    assert_eq!(AutoDemoError::MissingValue("--expected-apps".to_owned()).to_string(), "missing value after --expected-apps");
    assert_eq!(
        AutoDemoError::InvalidValue("--auto-hold-ms".to_owned()).to_string(),
        "invalid numeric value after --auto-hold-ms"
    );
    assert_eq!(AutoDemoError::Timeout("3 applications".to_owned()).to_string(), "timed out waiting for 3 applications");
    assert_eq!(
        AutoDemoError::UnexpectedState("wrong mode".to_owned()).to_string(),
        "showcase validation failed: wrong mode"
    );
    assert_eq!(
        AutoDemoError::Service(sam::service::ServiceError::StateUnavailable).to_string(),
        "SAM service state is unavailable"
    );
}

fn snapshot(name: &str, connected: bool, synchronized: bool) -> sam::service::ApplicationSnapshot {
    sam::service::ApplicationSnapshot {
        application: sam::types::ApplicationId::new(name),
        health: HealthState::Healthy,
        effective_health: HealthState::Healthy,
        current_mode: SystemMode::Standby,
        connected,
        synchronized,
        heartbeat_age: 0,
    }
}

#[test]
fn waiting_for_applications_counts_connected_synchronized_ones() {
    let applications = vec![
        snapshot("guidance", true, true),
        snapshot("navigation", true, false),
        snapshot("telemetry", false, false),
    ];
    assert!(matches!(applications_ready(&applications, 1, false), Ok(true)));
    assert!(matches!(applications_ready(&applications, 1, true), Ok(true)));
    assert!(matches!(applications_ready(&applications, 3, false), Ok(false)));
    match applications_ready(&applications, 3, true) {
        Err(AutoDemoError::Timeout(text)) => {
            assert_eq!(text, "3 connected and synchronized applications (found 1)")
        }
        other => panic!("unexpected outcome: {other:?}"),
    }
    assert!(matches!(applications_ready(&vec![], 0, true), Ok(true)));
}

#[test]
fn waiting_for_one_application_matches_name_and_state() {
    let applications = vec![snapshot("navigation", true, true), snapshot("telemetry", false, false)];
    assert!(matches!(application_in_state(&applications, "telemetry", false, false, false), Ok(true)));
    assert!(matches!(application_in_state(&applications, "telemetry", true, true, false), Ok(false)));
    assert!(matches!(application_in_state(&applications, "navigation", true, false, false), Ok(true)));
    match application_in_state(&applications, "telemetry", true, true, true) {
        Err(AutoDemoError::Timeout(text)) => {
            assert_eq!(text, "application telemetry connected=true, synchronized=true")
        }
        other => panic!("unexpected outcome: {other:?}"),
    }
}

#[test]
fn waiting_for_transitions_and_health() {
    assert!(matches!(transition_finished(SystemMode::Working, SystemMode::Working, TransitionId(2), true), Ok(true)));
    assert!(matches!(transition_finished(SystemMode::Standby, SystemMode::Working, TransitionId(2), false), Ok(false)));
    match transition_finished(SystemMode::Standby, SystemMode::Working, TransitionId(2), true) {
        Err(AutoDemoError::Timeout(text)) => assert_eq!(text, "transition TransitionId(2) to Working"),
        other => panic!("unexpected outcome: {other:?}"),
    }
    assert!(matches!(rejection_settled(false, TransitionId(3), true), Ok(true)));
    assert!(matches!(rejection_settled(true, TransitionId(3), false), Ok(false)));
    match rejection_settled(true, TransitionId(3), true) {
        Err(AutoDemoError::Timeout(text)) => assert_eq!(text, "rejection of transition TransitionId(3)"),
        other => panic!("unexpected outcome: {other:?}"),
    }
    assert!(rejection_confirmed(TransitionId(3), SystemMode::Standby, SystemMode::Standby).is_ok());
    match rejection_confirmed(TransitionId(3), SystemMode::Standby, SystemMode::Working) {
        Err(AutoDemoError::UnexpectedState(text)) => {
            assert_eq!(text, "transition TransitionId(3) committed Working instead of being rejected")
        }
        other => panic!("unexpected outcome: {other:?}"),
    }
    assert!(matches!(health_reached(HealthState::Failed, HealthState::Failed, true), Ok(true)));
    assert!(matches!(health_reached(HealthState::Healthy, HealthState::Failed, false), Ok(false)));
    match health_reached(HealthState::Degraded, HealthState::Healthy, true) {
        Err(AutoDemoError::Timeout(text)) => assert_eq!(text, "system health Healthy (currently Degraded)"),
        other => panic!("unexpected outcome: {other:?}"),
    }
}

fn plan(next: fn(usize, Result<(), AutoDemoError>) -> DemoAction) -> Vec<DemoStep> {
    let mut steps = Vec::new();
    loop {
        match next(steps.len(), Ok(())) {
            DemoAction::Perform(step) => steps.push(step),
            DemoAction::Passed => return steps,
            DemoAction::Failed(error) => panic!("unexpected failure: {error:?}"),
        }
    }
}

#[test]
fn showcase_plan_passes_only_after_every_stage() {
    let steps = plan(showcase_next);
    assert_eq!(
        steps,
        vec![
            DemoStep::Stage(1),
            DemoStep::TransitionTo(SystemMode::Standby),
            DemoStep::Hold,
            DemoStep::Stage(2),
            DemoStep::WaitForApplication { connected: false, synchronized: false },
            DemoStep::WaitForHealth(HealthState::Failed),
            DemoStep::Stage(3),
            DemoStep::WaitForApplication { connected: true, synchronized: true },
            DemoStep::WaitForHealth(HealthState::Healthy),
            DemoStep::Hold,
            DemoStep::Stage(4),
            DemoStep::ExpectRejected(SystemMode::Working),
            DemoStep::Hold,
            DemoStep::Stage(5),
            DemoStep::TransitionTo(SystemMode::Working),
            DemoStep::Hold,
            DemoStep::Stage(6),
            DemoStep::TransitionTo(SystemMode::Standby),
        ]
    );
    assert!(matches!(
        showcase_next(17, Err(AutoDemoError::Timeout("x".to_owned()))),
        DemoAction::Failed(AutoDemoError::Timeout(_))
    ));
    assert!(matches!(showcase_next(18, Ok(())), DemoAction::Passed));
    assert_eq!(watched_application(), "telemetry");
}

#[test]
fn plain_demo_walks_standby_working_standby() {
    assert_eq!(
        plan(demo_next),
        vec![
            DemoStep::TransitionTo(SystemMode::Standby),
            DemoStep::Hold,
            DemoStep::TransitionTo(SystemMode::Working),
            DemoStep::Hold,
            DemoStep::TransitionTo(SystemMode::Standby),
            DemoStep::Hold,
        ]
    );
    assert!(matches!(demo_next(3, Err(AutoDemoError::UnexpectedState("y".to_owned()))), DemoAction::Failed(_)));
}

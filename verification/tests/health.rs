use sam::health::HealthManager;
use sam::registry::ApplicationRegistry;
use sam::types::{ApplicationId, HealthState, SystemMode};

fn app(name: &str) -> ApplicationId {
    ApplicationId::from(name)
}

const START: u64 = 80_000;
const ONE_SECOND: u64 = 1_000;

#[test]
fn empty_registry_is_healthy() {
    let registry = ApplicationRegistry::default();
    let manager = HealthManager::new(ONE_SECOND);
    assert_eq!(manager.calculate(&registry, START), HealthState::Healthy);
}

#[test]
fn all_healthy_applications_report_healthy() {
    let start = START;
    let mut registry = ApplicationRegistry::default();
    registry.register(app("navigation"), start);
    registry.register(app("guidance"), start);
    registry
        .update_heartbeat(&app("navigation"), HealthState::Healthy, SystemMode::Startup, start)
        .unwrap();
    registry
        .update_heartbeat(&app("guidance"), HealthState::Healthy, SystemMode::Startup, start)
        .unwrap();

    let manager = HealthManager::new(ONE_SECOND);
    assert_eq!(manager.calculate(&registry, start), HealthState::Healthy);
}

#[test]
fn degraded_application_degrades_overall_health() {
    let start = START;
    let mut registry = ApplicationRegistry::default();
    registry.register(app("navigation"), start);
    registry
        .update_heartbeat(&app("navigation"), HealthState::Degraded, SystemMode::Startup, start)
        .unwrap();

    let manager = HealthManager::new(ONE_SECOND);
    assert_eq!(manager.calculate(&registry, start), HealthState::Degraded);
}

#[test]
fn one_failed_application_fails_overall_health_even_if_others_healthy() {
    let start = START;
    let mut registry = ApplicationRegistry::default();
    registry.register(app("navigation"), start);
    registry.register(app("guidance"), start);
    registry
        .update_heartbeat(&app("navigation"), HealthState::Failed, SystemMode::Startup, start)
        .unwrap();
    registry
        .update_heartbeat(&app("guidance"), HealthState::Healthy, SystemMode::Startup, start)
        .unwrap();

    let manager = HealthManager::new(ONE_SECOND);
    assert_eq!(manager.calculate(&registry, start), HealthState::Failed);
}

#[test]
fn disconnected_application_fails_health_even_if_report_was_healthy() {
    let start = START;
    let mut registry = ApplicationRegistry::default();
    registry.register(app("navigation"), start);
    registry
        .update_heartbeat(&app("navigation"), HealthState::Healthy, SystemMode::Startup, start)
        .unwrap();
    registry.mark_disconnected(&app("navigation")).unwrap();

    let manager = HealthManager::new(ONE_SECOND);
    assert_eq!(manager.calculate(&registry, start), HealthState::Failed);
}

#[test]
fn heartbeat_exactly_at_timeout_boundary_is_still_healthy() {
    let start = START;
    let mut registry = ApplicationRegistry::default();
    registry.register(app("navigation"), start);
    registry
        .update_heartbeat(&app("navigation"), HealthState::Healthy, SystemMode::Startup, start)
        .unwrap();

    let manager = HealthManager::new(ONE_SECOND);
    // Exactly the timeout has elapsed; only a strictly longer silence is stale.
    assert_eq!(manager.calculate(&registry, start + ONE_SECOND), HealthState::Healthy);
}

#[test]
fn stale_heartbeat_fails_health() {
    let start: u64 = START;
    let mut registry: ApplicationRegistry = ApplicationRegistry::default();
    let app: ApplicationId = ApplicationId::from("navigation");
    registry.register(app.clone(), start);
    registry
        .update_heartbeat(&app, HealthState::Healthy, SystemMode::Startup, start)
        .unwrap();

    let manager: HealthManager = HealthManager::new(ONE_SECOND);
    assert_eq!(manager.calculate(&registry, start + 2 * ONE_SECOND), HealthState::Failed);
}

#[test]
fn system_health_is_the_worst_application_health() {
    let mut registry = ApplicationRegistry::default();
    registry.register(app("navigation"), START);
    registry.register(app("guidance"), START);
    registry.register(app("telemetry"), START);
    registry.update_heartbeat(&app("navigation"), HealthState::Degraded, SystemMode::Startup, START).unwrap();
    registry.update_heartbeat(&app("guidance"), HealthState::Healthy, SystemMode::Startup, START).unwrap();
    registry.update_heartbeat(&app("telemetry"), HealthState::Healthy, SystemMode::Startup, START).unwrap();
    let manager = HealthManager::new(ONE_SECOND);
    assert_eq!(manager.calculate(&registry, START), HealthState::Degraded);
    let navigation = *registry.get(&app("navigation")).unwrap();
    assert_eq!(manager.calculate_application(&navigation, START), HealthState::Degraded);

    registry.update_heartbeat(&app("telemetry"), HealthState::Failed, SystemMode::Startup, START).unwrap();
    assert_eq!(manager.calculate(&registry, START), HealthState::Failed);
    let guidance = *registry.get(&app("guidance")).unwrap();
    assert_eq!(manager.calculate_application(&guidance, START), HealthState::Healthy);
}

#[test]
fn silence_only_worsens_health() {
    let mut registry = ApplicationRegistry::default();
    registry.register(app("navigation"), START);
    let manager = HealthManager::new(ONE_SECOND);
    assert_eq!(manager.calculate(&registry, START), HealthState::Healthy);
    assert_eq!(manager.calculate(&registry, START + ONE_SECOND), HealthState::Healthy);
    assert_eq!(manager.calculate(&registry, START + ONE_SECOND + 1), HealthState::Failed);
    assert_eq!(manager.calculate(&registry, START + 10 * ONE_SECOND), HealthState::Failed);
    // A heartbeat stamped in the future counts as fresh.
    assert_eq!(manager.calculate(&registry, START - 5), HealthState::Healthy);
}

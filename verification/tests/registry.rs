use sam::registry::{ApplicationRegistry, RegistryError};
use sam::state::SystemState;
use sam::types::{ApplicationId, HealthState, SystemMode};

fn app(name: &str) -> ApplicationId {
    ApplicationId::from(name)
}

/// A point on the monotonic clock, in milliseconds.
const START: u64 = 50_000;

#[test]
fn new_registry_is_empty() {
    let registry = ApplicationRegistry::default();
    assert!(registry.is_empty());
    assert_eq!(registry.ids().len(), 0);
}

#[test]
fn register_adds_application_with_default_status() {
    let now = START;
    let mut registry = ApplicationRegistry::default();
    registry.register(app("navigation"), now);

    assert!(!registry.is_empty());
    let status = registry.get(&app("navigation")).expect("registered");
    assert_eq!(status.current_mode, SystemMode::Startup);
    assert_eq!(status.health, HealthState::Healthy);
    assert!(status.connected);
    assert_eq!(status.last_heartbeat, now);
}

#[test]
fn register_twice_overwrites_previous_status() {
    let start = START;
    let mut registry = ApplicationRegistry::default();
    registry.register(app("navigation"), start);
    registry
        .update_heartbeat(&app("navigation"), HealthState::Degraded, SystemMode::Working, start + 1_000)
        .unwrap();

    registry.register(app("navigation"), start + 2_000);
    let status = registry.get(&app("navigation")).unwrap();
    assert_eq!(status.health, HealthState::Healthy);
    assert_eq!(status.current_mode, SystemMode::Startup);
}

#[test]
fn get_unknown_application_returns_none() {
    let registry = ApplicationRegistry::default();
    assert!(registry.get(&app("unknown")).is_none());
}

#[test]
fn update_heartbeat_updates_fields_and_reconnects() {
    let start = START;
    let mut registry = ApplicationRegistry::default();
    registry.register(app("navigation"), start);
    registry.mark_disconnected(&app("navigation")).unwrap();

    let later = start + 5_000;
    registry
        .update_heartbeat(&app("navigation"), HealthState::Degraded, SystemMode::Working, later)
        .unwrap();

    let status = registry.get(&app("navigation")).unwrap();
    assert_eq!(status.health, HealthState::Degraded);
    assert_eq!(status.current_mode, SystemMode::Working);
    assert_eq!(status.last_heartbeat, later);
    assert!(status.connected);
}

#[test]
fn update_heartbeat_for_unregistered_application_errors() {
    let mut registry = ApplicationRegistry::default();
    let result = registry.update_heartbeat(&app("unknown"), HealthState::Healthy, SystemMode::Startup, START);
    assert_eq!(result, Err(RegistryError::NotRegistered(app("unknown"))));
}

#[test]
fn set_mode_updates_mode_without_changing_heartbeat_time() {
    let now = START;
    let mut registry = ApplicationRegistry::default();
    let navigation = app("navigation");
    registry.register(navigation.clone(), now);

    registry.set_mode(&navigation, SystemMode::Standby).unwrap();
    let status = registry.get(&navigation).unwrap();
    assert_eq!(status.current_mode, SystemMode::Standby);
    assert_eq!(status.last_heartbeat, now);
}

#[test]
fn mark_disconnected_sets_connected_false() {
    let mut registry = ApplicationRegistry::default();
    registry.register(app("navigation"), START);
    registry.mark_disconnected(&app("navigation")).unwrap();

    assert!(!registry.get(&app("navigation")).unwrap().connected);
}

#[test]
fn mark_disconnected_for_unregistered_application_errors() {
    let mut registry = ApplicationRegistry::default();
    let result = registry.mark_disconnected(&app("unknown"));
    assert_eq!(result, Err(RegistryError::NotRegistered(app("unknown"))));
}

#[test]
fn ids_and_iter_reflect_all_registered_applications() {
    let mut registry = ApplicationRegistry::default();
    registry.register(app("navigation"), START);
    registry.register(app("guidance"), START);

    let mut ids: Vec<String> = registry.ids().iter().map(|id| id.0.clone()).collect();
    ids.sort();
    assert_eq!(ids, vec!["guidance".to_string(), "navigation".to_string()]);

    assert_eq!(registry.iter().len(), 2);
}

#[test]
fn default_state_starts_in_startup_and_healthy() {
    let state = SystemState::default();
    assert_eq!(state.mode, SystemMode::Startup);
    assert_eq!(state.health, HealthState::Healthy);
}

#[test]
fn system_state_is_copy_and_value_equal() {
    let a = SystemState::default();
    let b = a;
    assert_eq!(a, b);

    let c = SystemState {
        mode: SystemMode::Working,
        health: HealthState::Degraded,
    };
    assert_ne!(a, c);
}

#[test]
fn not_registered_error_names_the_application() {
    let error = RegistryError::NotRegistered(app("unknown"));
    assert_eq!(
        error.to_string(),
        "application is not registered: ApplicationId(\"unknown\")"
    );
}

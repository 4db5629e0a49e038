use std::collections::HashSet;

use sam::messages::ApplicationToSam;
use sam::types::{ApplicationId, HealthState, SystemMode, TransitionId};

fn app(name: &str) -> ApplicationId {
    ApplicationId::from(name)
}

#[test]
fn distinct_variants_are_not_equal() {
    let ready = ApplicationToSam::ModeReady {
        application: app("navigation"),
        transition_id: TransitionId(1),
    };
    let rejected = ApplicationToSam::ModeRejected {
        application: app("navigation"),
        transition_id: TransitionId(1),
        reason: "n/a".to_string(),
    };
    assert_ne!(ready, rejected);
}

#[test]
fn application_id_new_accepts_string_and_str() {
    assert_eq!(ApplicationId::new("navigation"), ApplicationId::from("navigation"));
    assert_eq!(
        ApplicationId::new(String::from("guidance")),
        ApplicationId::from("guidance")
    );
}

#[test]
fn application_id_from_str_matches_direct_construction() {
    let via_from: ApplicationId = "navigation".into();
    assert_eq!(via_from, ApplicationId::new("navigation"));
}

#[test]
fn application_id_equality_is_value_based() {
    assert_eq!(ApplicationId::from("a"), ApplicationId::from("a"));
    assert_ne!(ApplicationId::from("a"), ApplicationId::from("b"));
}

#[test]
fn application_id_hashable_for_use_in_sets() {
    let mut set: HashSet<ApplicationId> = HashSet::new();
    set.insert(ApplicationId::from("navigation"));
    set.insert(ApplicationId::from("navigation"));
    set.insert(ApplicationId::from("guidance"));

    assert_eq!(set.len(), 2);
    assert!(set.contains(&ApplicationId::from("navigation")));
}

#[test]
fn transition_id_equality_and_copy() {
    let a = TransitionId(1);
    let b = a;
    assert_eq!(a, b);
    assert_ne!(TransitionId(1), TransitionId(2));
}

#[test]
fn system_mode_and_health_state_are_copy_and_comparable() {
    let mode = SystemMode::Startup;
    let mode_copy = mode;
    assert_eq!(mode, mode_copy);
    assert_ne!(SystemMode::Startup, SystemMode::Standby);

    let health = HealthState::Healthy;
    let health_copy = health;
    assert_eq!(health, health_copy);
    assert_ne!(HealthState::Healthy, HealthState::Failed);
}

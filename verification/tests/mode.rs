use sam::mode::{ModeError, ModeEvent, ModeManager, ModeManagerState};
use sam::types::{ApplicationId, SystemMode, TransitionId};

fn app(name: &str) -> ApplicationId {
    ApplicationId::from(name)
}

#[test]
fn all_apps_ready_and_committed_complete_transition() {
    let navigation = app("navigation");
    let guidance = app("guidance");
    let mut manager = ModeManager::new(SystemMode::Standby);
    let id = manager
        .request_transition(SystemMode::Working, vec![navigation.clone(), guidance.clone()])
        .unwrap();

    assert_eq!(manager.application_ready(&navigation, id).unwrap(), None);
    assert!(matches!(
        manager.application_ready(&guidance, id).unwrap(),
        Some(ModeEvent::PreparationComplete { .. })
    ));
    assert_eq!(manager.current_mode(), SystemMode::Standby);

    assert_eq!(
        manager
            .application_committed(&navigation, id, SystemMode::Working)
            .unwrap(),
        None
    );
    assert!(matches!(
        manager
            .application_committed(&guidance, id, SystemMode::Working)
            .unwrap(),
        Some(ModeEvent::TransitionComplete { .. })
    ));
    assert_eq!(manager.current_mode(), SystemMode::Working);
}

#[test]
fn rejection_aborts_and_preserves_previous_mode() {
    let navigation = app("navigation");
    let guidance = app("guidance");
    let mut manager = ModeManager::new(SystemMode::Standby);
    let id = manager
        .request_transition(SystemMode::Working, vec![navigation.clone(), guidance.clone()])
        .unwrap();

    manager.application_ready(&navigation, id).unwrap();
    let event = manager
        .application_rejected(&guidance, id, "solution unavailable".to_string())
        .unwrap();

    assert!(matches!(event, ModeEvent::TransitionAborted { .. }));
    assert_eq!(
        manager.state(),
        &ModeManagerState::Stable {
            mode: SystemMode::Standby
        }
    );
}

#[test]
fn stale_response_cannot_advance_transition() {
    let navigation = app("navigation");
    let mut manager = ModeManager::new(SystemMode::Standby);
    let id = manager
        .request_transition(SystemMode::Working, vec![navigation.clone()])
        .unwrap();

    assert_eq!(
        manager.application_ready(&navigation, TransitionId(id.0 + 1)),
        Err(ModeError::StaleTransition)
    );
}

#[test]
fn refused_requests_leave_the_manager_unchanged() {
    let navigation = app("navigation");
    let mut manager = ModeManager::new(SystemMode::Standby);
    assert_eq!(
        manager.request_transition(SystemMode::Standby, vec![navigation.clone()]),
        Err(ModeError::AlreadyInMode)
    );
    assert_eq!(manager.request_transition(SystemMode::Working, vec![]), Err(ModeError::NoParticipants));
    assert_eq!(manager.state(), &ModeManagerState::Stable { mode: SystemMode::Standby });

    let id = manager.request_transition(SystemMode::Working, vec![navigation.clone()]).unwrap();
    assert_eq!(
        manager.request_transition(SystemMode::Startup, vec![navigation.clone()]),
        Err(ModeError::TransitionInProgress)
    );
    assert_eq!(manager.application_ready(&navigation, id).unwrap(), Some(ModeEvent::PreparationComplete {
        transition_id: id,
        target_mode: SystemMode::Working,
    }));
}

#[test]
fn every_participant_must_consent_before_commit() {
    let navigation = app("navigation");
    let guidance = app("guidance");
    let telemetry = app("telemetry");
    let mut manager = ModeManager::new(SystemMode::Startup);
    let id = manager
        .request_transition(SystemMode::Standby, vec![navigation.clone(), guidance.clone(), telemetry.clone()])
        .unwrap();
    assert_eq!(manager.application_ready(&navigation, id).unwrap(), None);
    assert_eq!(manager.application_ready(&guidance, id).unwrap(), None);
    assert_eq!(manager.application_ready(&app("outsider"), id), Err(ModeError::UnknownParticipant(app("outsider"))));
    assert_eq!(manager.current_mode(), SystemMode::Startup);
    assert!(manager.application_ready(&telemetry, id).unwrap().is_some());
    assert_eq!(manager.current_mode(), SystemMode::Startup);
    assert_eq!(
        manager.application_committed(&navigation, id, SystemMode::Working),
        Err(ModeError::WrongCommittedMode)
    );
    manager.application_committed(&navigation, id, SystemMode::Standby).unwrap();
    manager.application_committed(&guidance, id, SystemMode::Standby).unwrap();
    assert_eq!(manager.current_mode(), SystemMode::Startup);
    assert_eq!(
        manager.application_committed(&telemetry, id, SystemMode::Standby).unwrap(),
        Some(ModeEvent::TransitionComplete { transition_id: id, mode: SystemMode::Standby })
    );
    assert_eq!(manager.current_mode(), SystemMode::Standby);
}

#[test]
fn transition_ids_increase_and_late_answers_are_refused() {
    let navigation = app("navigation");
    let mut manager = ModeManager::new(SystemMode::Standby);
    let first = manager.request_transition(SystemMode::Working, vec![navigation.clone()]).unwrap();
    manager.application_rejected(&navigation, first, "no".to_owned()).unwrap();
    let second = manager.request_transition(SystemMode::Working, vec![navigation.clone()]).unwrap();
    assert_eq!(second, TransitionId(first.0 + 1));
    assert_eq!(manager.application_ready(&navigation, first), Err(ModeError::StaleTransition));
    assert_eq!(manager.application_rejected(&navigation, first, "late".to_owned()), Err(ModeError::StaleTransition));
    assert_eq!(manager.current_mode(), SystemMode::Standby);
}

#[test]
fn mode_errors_describe_themselves() {
    assert_eq!(ModeError::TransitionInProgress.to_string(), "a mode transition is already in progress");
    assert_eq!(
        ModeError::UnknownParticipant(app("telemetry")).to_string(),
        "application is not participating in this transition: ApplicationId(\"telemetry\")"
    );
}

#[test]
fn granted_requests_are_numbered_from_one() {
    let navigation = app("navigation");
    let mut manager = ModeManager::new(SystemMode::Startup);
    assert_eq!(manager.request_transition(SystemMode::Startup, vec![navigation.clone()]), Err(ModeError::AlreadyInMode));
    for k in 1..=3u64 {
        let id = manager.request_transition(SystemMode::Working, vec![navigation.clone()]).unwrap();
        assert_eq!(id, TransitionId(k));
        assert_eq!(
            manager.request_transition(SystemMode::Standby, vec![navigation.clone()]),
            Err(ModeError::TransitionInProgress)
        );
        manager.application_rejected(&navigation, id, "not yet".to_owned()).unwrap();
    }
}

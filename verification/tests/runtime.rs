use sam::messages::{ApplicationToSam, SamToApplication};
use sam::runtime::{
    commit_reply, is_permanent, prepare_reply, registration_outcome, session_step, synchronization_target,
    ApplicationRuntime, RuntimeConfig,
    RuntimeError, SessionStep,
};
use sam::transport::{LocalEndpoint, TransportError};
use sam::types::{ApplicationId, HealthState, SystemMode, TransitionId, PROTOCOL_VERSION};

#[test]
fn accepted_registration_reports_the_system_state() {
    let outcome = registration_outcome(SamToApplication::RegisterAccepted {
        protocol_version: PROTOCOL_VERSION,
        current_mode: SystemMode::Standby,
        system_health: HealthState::Degraded,
    });
    assert_eq!(outcome.ok(), Some((SystemMode::Standby, HealthState::Degraded)));
}

#[test]
fn accepted_registration_with_another_version_is_a_mismatch() {
    let outcome = registration_outcome(SamToApplication::RegisterAccepted {
        protocol_version: 7,
        current_mode: SystemMode::Startup,
        system_health: HealthState::Healthy,
    });
    match outcome {
        Err(RuntimeError::ProtocolVersionMismatch { received, supported }) => {
            assert_eq!(received, 7);
            assert_eq!(supported, PROTOCOL_VERSION);
        }
        other => panic!("unexpected outcome: {other:?}"),
    }
}

#[test]
fn rejected_registration_keeps_version_and_reason() {
    let outcome = registration_outcome(SamToApplication::RegisterRejected {
        supported_protocol_version: 1,
        reason: "client too old".to_owned(),
    });
    match outcome {
        Err(RuntimeError::RegistrationRejected { supported_version, reason }) => {
            assert_eq!(supported_version, 1);
            assert_eq!(reason, "client too old");
        }
        other => panic!("unexpected outcome: {other:?}"),
    }
}

#[test]
fn any_other_reply_to_register_is_unexpected() {
    let reply = SamToApplication::AbortMode { transition_id: TransitionId(4) };
    match registration_outcome(reply.clone()) {
        Err(RuntimeError::UnexpectedRegistrationResponse(message)) => assert_eq!(message, reply),
        other => panic!("unexpected outcome: {other:?}"),
    }
}

#[test]
fn session_messages_become_steps() {
    let id = TransitionId(9);
    assert_eq!(
        session_step(SamToApplication::PrepareMode { transition_id: id, requested_mode: SystemMode::Working }).ok(),
        Some(SessionStep::Prepare { transition_id: id, requested_mode: SystemMode::Working })
    );
    assert_eq!(
        session_step(SamToApplication::CommitMode { transition_id: id, mode: SystemMode::Working }).ok(),
        Some(SessionStep::Commit { transition_id: id, mode: SystemMode::Working })
    );
    assert_eq!(
        session_step(SamToApplication::AbortMode { transition_id: id }).ok(),
        Some(SessionStep::Abort { transition_id: id })
    );
    assert_eq!(
        session_step(SamToApplication::StateBroadcast { mode: SystemMode::Standby, health: HealthState::Failed }).ok(),
        Some(SessionStep::StateChanged { mode: SystemMode::Standby, health: HealthState::Failed })
    );
}

#[test]
fn a_registration_answer_during_a_session_ends_it() {
    let message = SamToApplication::RegisterAccepted {
        protocol_version: PROTOCOL_VERSION,
        current_mode: SystemMode::Startup,
        system_health: HealthState::Healthy,
    };
    match session_step(message.clone()) {
        Err(RuntimeError::UnexpectedRegistrationResponse(m)) => assert_eq!(m, message),
        other => panic!("unexpected step: {other:?}"),
    }
}

#[test]
fn prepare_decision_becomes_ready_or_rejected() {
    let application = ApplicationId::new("guidance");
    assert_eq!(
        prepare_reply(&application, TransitionId(2), Ok(())),
        ApplicationToSam::ModeReady { application: ApplicationId::new("guidance"), transition_id: TransitionId(2) }
    );
    assert_eq!(
        prepare_reply(&application, TransitionId(2), Err("solution unavailable".to_owned())),
        ApplicationToSam::ModeRejected {
            application: ApplicationId::new("guidance"),
            transition_id: TransitionId(2),
            reason: "solution unavailable".to_owned(),
        }
    );
}

#[test]
fn commit_outcome_becomes_committed_or_ends_the_session() {
    let application = ApplicationId::new("lifecycle");
    assert_eq!(
        commit_reply(&application, TransitionId(5), SystemMode::Working, Ok(())).ok(),
        Some(ApplicationToSam::ModeCommitted {
            application: ApplicationId::new("lifecycle"),
            transition_id: TransitionId(5),
            mode: SystemMode::Working,
        })
    );
    match commit_reply(&application, TransitionId(5), SystemMode::Working, Err("no power".to_owned())) {
        Err(RuntimeError::CommitFailed(reason)) => assert_eq!(reason, "no power"),
        other => panic!("unexpected reply: {other:?}"),
    }
}

#[test]
fn only_rejection_and_version_mismatch_are_permanent() {
    assert!(is_permanent(&RuntimeError::RegistrationRejected { supported_version: 1, reason: String::new() }));
    assert!(is_permanent(&RuntimeError::ProtocolVersionMismatch { received: 2, supported: 1 }));
    assert!(!is_permanent(&RuntimeError::RegistrationTimeout));
    assert!(!is_permanent(&RuntimeError::ConnectionClosed));
    assert!(!is_permanent(&RuntimeError::CommitFailed("x".to_owned())));
    assert!(!is_permanent(&RuntimeError::Transport(TransportError::ConnectTimeout)));
}

#[test]
fn runtime_errors_describe_themselves() {
    assert_eq!(RuntimeError::RegistrationTimeout.to_string(), "registration timed out");
    assert_eq!(RuntimeError::ConnectionClosed.to_string(), "SAM connection closed");
    assert_eq!(
        RuntimeError::RegistrationRejected { supported_version: 1, reason: "client too old".to_owned() }.to_string(),
        "SAM rejected protocol version 1: client too old"
    );
    assert_eq!(
        RuntimeError::ProtocolVersionMismatch { received: 12, supported: 1 }.to_string(),
        "SAM accepted registration with protocol version 12; client supports 1"
    );
    assert_eq!(
        RuntimeError::CommitFailed("no power".to_owned()).to_string(),
        "application failed to commit mode: no power"
    );
    assert_eq!(
        RuntimeError::Transport(TransportError::ConnectTimeout).to_string(),
        "connection attempt timed out"
    );
}

#[test]
fn unexpected_responses_are_shown_in_debug_form() {
    let error = RuntimeError::UnexpectedRegistrationResponse(SamToApplication::PrepareMode {
        transition_id: TransitionId(16),
        requested_mode: SystemMode::Working,
    });
    assert_eq!(
        error.to_string(),
        "expected registration response, received PrepareMode { transition_id: TransitionId(16), requested_mode: Working }"
    );
    let message = SamToApplication::RegisterRejected {
        supported_protocol_version: 3,
        reason: "say \"hi\"".to_owned(),
    };
    assert_eq!(
        RuntimeError::UnexpectedRegistrationResponse(message.clone()).to_string(),
        format!("expected registration response, received {message:?}")
    );
    for message in [
        SamToApplication::RegisterAccepted {
            protocol_version: 1,
            current_mode: SystemMode::Standby,
            system_health: HealthState::Degraded,
        },
        SamToApplication::CommitMode { transition_id: TransitionId(0), mode: SystemMode::Startup },
        SamToApplication::AbortMode { transition_id: TransitionId(123) },
        SamToApplication::StateBroadcast { mode: SystemMode::Working, health: HealthState::Failed },
    ] {
        assert_eq!(
            RuntimeError::UnexpectedRegistrationResponse(message.clone()).to_string(),
            format!("expected registration response, received {message:?}")
        );
    }
}

#[test]
fn default_runtime_configuration() {
    let config = RuntimeConfig::default();
    assert_eq!(config.endpoint, LocalEndpoint::sam_default());
    assert_eq!(config.heartbeat_interval, 500);
    assert_eq!(config.reconnect_delay, 1000);
    assert_eq!(config.registration_timeout, 5000);
}

#[test]
fn runtime_keeps_application_and_configuration() {
    let config = RuntimeConfig {
        endpoint: LocalEndpoint::new("/tmp/other.sock"),
        heartbeat_interval: 20,
        reconnect_delay: 10,
        registration_timeout: 5000,
    };
    let runtime = ApplicationRuntime::new("navigation", config);
    assert_eq!(runtime.application(), &ApplicationId::new("navigation"));
    assert_eq!(runtime.config().endpoint.as_str(), "/tmp/other.sock");
    assert_eq!(runtime.config().heartbeat_interval, 20);
    let from_id = ApplicationRuntime::new(ApplicationId::new("guidance"), RuntimeConfig::default());
    assert_eq!(from_id.application().0, "guidance");
}

#[test]
fn an_application_out_of_step_is_brought_to_the_system_mode() {
    assert_eq!(synchronization_target(SystemMode::Startup, SystemMode::Working), Some(SystemMode::Working));
    assert_eq!(synchronization_target(SystemMode::Standby, SystemMode::Startup), Some(SystemMode::Startup));
    assert_eq!(synchronization_target(SystemMode::Working, SystemMode::Working), None);
}

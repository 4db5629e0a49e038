use sam::messages::{ApplicationToSam, SamToApplication};
use sam::service::{registration_decision, ConnectionId, Delivery, SamService, ServiceError};
use sam::state::SystemState;
use sam::service::ApplicationSnapshot;
use sam::types::TransitionId;
use sam::types::{ApplicationId, HealthState, SystemMode, PROTOCOL_VERSION};
use tokio::sync::mpsc;

fn app(name: &str) -> ApplicationId {
    ApplicationId::from(name)
}

/// The service with an outbound queue per current connection: hands the
/// service's deliveries to the queues, as SAM's server does.
struct Hub {
    service: SamService,
    outbound: Vec<(ApplicationId, mpsc::Sender<SamToApplication>)>,
}

impl Hub {
    fn new(heartbeat_timeout: u64) -> Self {
        Hub { service: SamService::new(heartbeat_timeout), outbound: Vec::new() }
    }

    fn deliver(&self, deliveries: Vec<Delivery>) {
        for delivery in deliveries {
            for (name, sender) in &self.outbound {
                if *name == delivery.to {
                    let _ = sender.try_send(delivery.message.clone());
                }
            }
        }
    }

    fn register(
        &mut self,
        application: ApplicationId,
        outbound: mpsc::Sender<SamToApplication>,
        now: u64,
    ) -> Result<ConnectionId, ServiceError> {
        let pending = self.service.register(application.clone(), now);
        let queued = outbound.try_send(pending.reply().clone()).is_ok();
        let id = self.service.complete_registration(pending, queued)?;
        self.outbound.retain(|(name, _)| *name != application);
        self.outbound.push((application, outbound));
        Ok(id)
    }

    fn disconnect(&mut self, application: &ApplicationId, id: ConnectionId, now: u64) -> Result<(), ServiceError> {
        if self.service.is_current_connection(application, id) {
            self.outbound.retain(|(name, _)| name != application);
        }
        let deliveries = self.service.disconnect(application, id, now)?;
        self.deliver(deliveries);
        Ok(())
    }

    fn handle_message(
        &mut self,
        registered: &ApplicationId,
        id: ConnectionId,
        message: ApplicationToSam,
        now: u64,
    ) -> Result<(), ServiceError> {
        let deliveries = self.service.handle_message(registered, id, message, now)?;
        self.deliver(deliveries);
        Ok(())
    }

    fn request_mode(&mut self, target: SystemMode) -> Result<TransitionId, ServiceError> {
        let (id, deliveries) = self.service.request_mode(target)?;
        self.deliver(deliveries);
        Ok(id)
    }

    fn refresh_health(&mut self, now: u64) -> Result<(), ServiceError> {
        let deliveries = self.service.refresh_health(now)?;
        self.deliver(deliveries);
        Ok(())
    }

    fn snapshot(&self) -> Result<SystemState, ServiceError> {
        self.service.snapshot()
    }

    fn transition_in_progress(&self) -> Result<bool, ServiceError> {
        self.service.transition_in_progress()
    }

    fn applications(&self, now: u64) -> Result<Vec<ApplicationSnapshot>, ServiceError> {
        self.service.applications(now)
    }
}

/// Heartbeat timeout of two seconds, in milliseconds.
const TIMEOUT: u64 = 2_000;
const NOW: u64 = 100_000;

#[test]
fn full_transition_is_broadcast_and_committed() {
    let mut service = Hub::new(TIMEOUT);
    let now = NOW;
    let nav = app("navigation");
    let guidance = app("guidance");
    let (nav_tx, mut nav_rx) = mpsc::channel(16);
    let (guidance_tx, mut guidance_rx) = mpsc::channel(16);
    let nav_id = service.register(nav.clone(), nav_tx, now).unwrap();
    let guidance_id = service.register(guidance.clone(), guidance_tx, now).unwrap();
    nav_rx.try_recv().unwrap();
    guidance_rx.try_recv().unwrap();

    let transition = service.request_mode(SystemMode::Working).unwrap();
    assert!(matches!(
        nav_rx.try_recv().unwrap(),
        SamToApplication::PrepareMode { .. }
    ));
    guidance_rx.try_recv().unwrap();
    service
        .handle_message(
            &nav,
            nav_id,
            ApplicationToSam::ModeReady {
                application: nav.clone(),
                transition_id: transition,
            },
            now,
        )
        .unwrap();
    service
        .handle_message(
            &guidance,
            guidance_id,
            ApplicationToSam::ModeReady {
                application: guidance.clone(),
                transition_id: transition,
            },
            now,
        )
        .unwrap();
    assert!(matches!(
        nav_rx.try_recv().unwrap(),
        SamToApplication::CommitMode { .. }
    ));
    guidance_rx.try_recv().unwrap();
    service
        .handle_message(
            &nav,
            nav_id,
            ApplicationToSam::ModeCommitted {
                application: nav.clone(),
                transition_id: transition,
                mode: SystemMode::Working,
            },
            now,
        )
        .unwrap();
    service
        .handle_message(
            &guidance,
            guidance_id,
            ApplicationToSam::ModeCommitted {
                application: guidance.clone(),
                transition_id: transition,
                mode: SystemMode::Working,
            },
            now,
        )
        .unwrap();
    assert_eq!(service.snapshot().unwrap().mode, SystemMode::Working);
}

#[test]
fn transition_activity_clears_after_rejection() {
    let mut service = Hub::new(TIMEOUT);
    let now = NOW;
    let telemetry = app("telemetry");
    let (tx, mut rx) = mpsc::channel(8);
    let connection = service.register(telemetry.clone(), tx, now).unwrap();
    rx.try_recv().unwrap();

    let transition = service.request_mode(SystemMode::Working).unwrap();
    assert!(service.transition_in_progress().unwrap());
    rx.try_recv().unwrap();
    service
        .handle_message(
            &telemetry,
            connection,
            ApplicationToSam::ModeRejected {
                application: telemetry.clone(),
                transition_id: transition,
                reason: "temporary safety interlock".to_owned(),
            },
            now,
        )
        .unwrap();

    assert!(!service.transition_in_progress().unwrap());
    assert_eq!(service.snapshot().unwrap().mode, SystemMode::Startup);
    assert_eq!(rx.try_recv().unwrap(), SamToApplication::AbortMode { transition_id: transition });
}

#[test]
fn late_ready_after_another_application_rejects_is_ignored() {
    let mut service = Hub::new(TIMEOUT);
    let now = NOW;
    let navigation = app("navigation");
    let telemetry = app("telemetry");
    let (nav_tx, mut nav_rx) = mpsc::channel(8);
    let (telemetry_tx, mut telemetry_rx) = mpsc::channel(8);
    let nav_connection = service.register(navigation.clone(), nav_tx, now).unwrap();
    let telemetry_connection = service.register(telemetry.clone(), telemetry_tx, now).unwrap();
    nav_rx.try_recv().unwrap();
    telemetry_rx.try_recv().unwrap();

    let transition = service.request_mode(SystemMode::Working).unwrap();
    nav_rx.try_recv().unwrap();
    telemetry_rx.try_recv().unwrap();
    service
        .handle_message(
            &telemetry,
            telemetry_connection,
            ApplicationToSam::ModeRejected {
                application: telemetry.clone(),
                transition_id: transition,
                reason: "temporary safety interlock".to_owned(),
            },
            now,
        )
        .unwrap();

    assert!(service
        .handle_message(
            &navigation,
            nav_connection,
            ApplicationToSam::ModeReady {
                application: navigation.clone(),
                transition_id: transition,
            },
            now,
        )
        .is_ok());
    assert_eq!(service.snapshot().unwrap().mode, SystemMode::Startup);
}

#[test]
fn application_cannot_impersonate_another_connection() {
    let mut service = Hub::new(TIMEOUT);
    let now = NOW;
    let nav = app("navigation");
    let (tx, _rx) = mpsc::channel(4);
    let id = service.register(nav.clone(), tx, now).unwrap();
    let result = service.handle_message(
        &nav,
        id,
        ApplicationToSam::Heartbeat {
            application: app("guidance"),
            health: HealthState::Healthy,
            current_mode: SystemMode::Startup,
        },
        now,
    );
    assert!(matches!(
        result,
        Err(ServiceError::ApplicationMismatch { .. })
    ));
}

#[test]
fn stale_disconnect_does_not_remove_replacement_connection() {
    let mut service = Hub::new(TIMEOUT);
    let now = NOW;
    let nav = app("navigation");
    let (first_tx, _first_rx) = mpsc::channel(4);
    let (second_tx, _second_rx) = mpsc::channel(4);
    let first = service.register(nav.clone(), first_tx, now).unwrap();
    let second = service.register(nav.clone(), second_tx, now).unwrap();
    service.disconnect(&nav, first, now).unwrap();
    assert!(service
        .handle_message(
            &nav,
            second,
            ApplicationToSam::Heartbeat {
                application: nav.clone(),
                health: HealthState::Healthy,
                current_mode: SystemMode::Startup,
            },
            now
        )
        .is_ok());
}

#[test]
fn heartbeat_expiration_broadcasts_failed_health() {
    let mut service = Hub::new(TIMEOUT);
    let now = NOW;
    let nav = app("navigation");
    let (tx, mut rx) = mpsc::channel(4);
    service.register(nav, tx, now).unwrap();
    rx.try_recv().unwrap();

    service.refresh_health(now + 3_000).unwrap();
    assert!(matches!(
        rx.try_recv().unwrap(),
        SamToApplication::StateBroadcast {
            health: HealthState::Failed,
            ..
        }
    ));
    assert_eq!(
        service.applications(now + 3_000).unwrap()[0].effective_health,
        HealthState::Failed,
    );
}

#[test]
fn mode_mismatch_is_degraded_until_application_synchronizes() {
    let mut service = Hub::new(TIMEOUT);
    let now = NOW;
    let navigation = app("navigation");
    let (tx, mut rx) = mpsc::channel(8);
    let connection = service.register(navigation.clone(), tx, now).unwrap();
    rx.try_recv().unwrap();

    service
        .handle_message(
            &navigation,
            connection,
            ApplicationToSam::Heartbeat {
                application: navigation.clone(),
                health: HealthState::Healthy,
                current_mode: SystemMode::Standby,
            },
            now,
        )
        .unwrap();

    let snapshot = service.applications(now).unwrap();
    assert!(!snapshot[0].synchronized);
    assert_eq!(snapshot[0].health, HealthState::Healthy);
    assert_eq!(snapshot[0].effective_health, HealthState::Degraded);
    assert_eq!(service.snapshot().unwrap().health, HealthState::Degraded);
}

#[test]
fn applications_are_listed_in_name_order() {
    let mut service = Hub::new(TIMEOUT);
    let (tx1, _rx1) = mpsc::channel(4);
    let (tx2, _rx2) = mpsc::channel(4);
    let (tx3, _rx3) = mpsc::channel(4);
    service.register(app("telemetry"), tx1, NOW).unwrap();
    service.register(app("guidance"), tx2, NOW).unwrap();
    service.register(app("navigation"), tx3, NOW + 500).unwrap();
    let listed: Vec<String> = service
        .applications(NOW + 700)
        .unwrap()
        .iter()
        .map(|snapshot| snapshot.application.0.clone())
        .collect();
    assert_eq!(listed, vec!["guidance", "navigation", "telemetry"]);
    assert_eq!(service.applications(NOW + 700).unwrap()[1].heartbeat_age, 200);
}

#[test]
fn registration_reply_carries_protocol_version_and_state() {
    let mut service = Hub::new(TIMEOUT);
    let (tx, mut rx) = mpsc::channel(4);
    service.register(app("navigation"), tx, NOW).unwrap();
    assert_eq!(
        rx.try_recv().unwrap(),
        SamToApplication::RegisterAccepted {
            protocol_version: PROTOCOL_VERSION,
            current_mode: SystemMode::Startup,
            system_health: HealthState::Healthy,
        }
    );
}

#[test]
fn registration_fails_when_the_reply_cannot_be_queued() {
    let mut service = Hub::new(TIMEOUT);
    let (tx, rx) = mpsc::channel(4);
    drop(rx);
    assert_eq!(
        service.register(app("navigation"), tx, NOW),
        Err(ServiceError::StateUnavailable)
    );
    assert!(matches!(
        service.request_mode(SystemMode::Standby),
        Err(ServiceError::Mode(text)) if text == "no applications are available to approve the transition"
    ));
}

#[test]
fn stale_connection_and_duplicate_registration_are_refused() {
    let mut service = Hub::new(TIMEOUT);
    let nav = app("navigation");
    let (first_tx, _first_rx) = mpsc::channel(4);
    let (second_tx, _second_rx) = mpsc::channel(4);
    let first = service.register(nav.clone(), first_tx, NOW).unwrap();
    let second = service.register(nav.clone(), second_tx, NOW).unwrap();
    assert_ne!(first, second);
    assert_eq!(
        service.handle_message(
            &nav,
            first,
            ApplicationToSam::Heartbeat {
                application: nav.clone(),
                health: HealthState::Healthy,
                current_mode: SystemMode::Startup,
            },
            NOW
        ),
        Err(ServiceError::StaleConnection(nav.clone()))
    );
    assert_eq!(
        service.handle_message(
            &nav,
            second,
            ApplicationToSam::Register {
                application: nav.clone(),
                protocol_version: PROTOCOL_VERSION,
            },
            NOW
        ),
        Err(ServiceError::DuplicateRegistration)
    );
}

#[test]
fn wrong_committed_mode_is_a_mode_error() {
    let mut service = Hub::new(TIMEOUT);
    let nav = app("navigation");
    let (tx, _rx) = mpsc::channel(16);
    let id = service.register(nav.clone(), tx, NOW).unwrap();
    let transition = service.request_mode(SystemMode::Standby).unwrap();
    service
        .handle_message(&nav, id, ApplicationToSam::ModeReady { application: nav.clone(), transition_id: transition }, NOW)
        .unwrap();
    assert_eq!(
        service.handle_message(
            &nav,
            id,
            ApplicationToSam::ModeCommitted {
                application: nav.clone(),
                transition_id: transition,
                mode: SystemMode::Working,
            },
            NOW
        ),
        Err(ServiceError::Mode("committed mode does not match the requested mode".to_string()))
    );
    assert!(service.transition_in_progress().unwrap());
}

#[test]
fn disconnect_fails_health_and_broadcasts_to_the_others() {
    let mut service = Hub::new(TIMEOUT);
    let nav = app("navigation");
    let telemetry = app("telemetry");
    let (nav_tx, mut nav_rx) = mpsc::channel(8);
    let (telemetry_tx, _telemetry_rx) = mpsc::channel(8);
    service.register(nav.clone(), nav_tx, NOW).unwrap();
    let telemetry_id = service.register(telemetry.clone(), telemetry_tx, NOW).unwrap();
    nav_rx.try_recv().unwrap();
    service.disconnect(&telemetry, telemetry_id, NOW).unwrap();
    assert_eq!(
        nav_rx.try_recv().unwrap(),
        SamToApplication::StateBroadcast { mode: SystemMode::Startup, health: HealthState::Failed }
    );
    let listed = service.applications(NOW).unwrap();
    assert!(!listed[1].connected);
    assert!(!listed[1].synchronized);
}

#[test]
fn first_message_must_register_with_this_protocol_version() {
    assert_eq!(
        registration_decision(ApplicationToSam::Register { application: app("navigation"), protocol_version: PROTOCOL_VERSION }),
        Ok(app("navigation"))
    );
    assert_eq!(
        registration_decision(ApplicationToSam::Register { application: app("navigation"), protocol_version: 0 }),
        Err(SamToApplication::RegisterRejected {
            supported_protocol_version: PROTOCOL_VERSION,
            reason: "unsupported protocol version 0".to_string(),
        })
    );
    assert_eq!(
        registration_decision(ApplicationToSam::ModeReady {
            application: app("navigation"),
            transition_id: sam::types::TransitionId(1),
        }),
        Err(SamToApplication::RegisterRejected {
            supported_protocol_version: PROTOCOL_VERSION,
            reason: "first message must be Register".to_string(),
        })
    );
}

#[test]
fn service_errors_describe_themselves() {
    assert_eq!(ServiceError::StateUnavailable.to_string(), "SAM service state is unavailable");
    assert_eq!(
        ServiceError::StaleConnection(app("navigation")).to_string(),
        "connection is no longer active for ApplicationId(\"navigation\")"
    );
    assert_eq!(
        ServiceError::ApplicationMismatch { expected: app("navigation"), actual: app("guidance") }.to_string(),
        "message application ApplicationId(\"guidance\") does not match registered application ApplicationId(\"navigation\")"
    );
    assert_eq!(
        ServiceError::DuplicateRegistration.to_string(),
        "registration is only valid as the first message"
    );
    assert_eq!(
        ServiceError::Mode("target mode is already active".to_owned()).to_string(),
        "mode transition failed: target mode is already active"
    );
}

#[test]
fn deliveries_name_every_connected_application_once() {
    let mut service = SamService::new(TIMEOUT);
    for name in ["navigation", "guidance", "telemetry"] {
        let pending = service.register(app(name), NOW);
        assert_eq!(
            pending.reply(),
            &SamToApplication::RegisterAccepted {
                protocol_version: PROTOCOL_VERSION,
                current_mode: SystemMode::Startup,
                system_health: HealthState::Healthy,
            }
        );
        let completed = service.complete_registration(pending, name != "telemetry");
        assert_eq!(completed.is_ok(), name != "telemetry");
    }
    let (transition, deliveries) = service.request_mode(SystemMode::Standby).unwrap();
    let mut recipients: Vec<String> = deliveries.iter().map(|d| d.to.0.clone()).collect();
    recipients.sort();
    assert_eq!(recipients, vec!["guidance", "navigation"]);
    for delivery in &deliveries {
        assert_eq!(delivery.message, SamToApplication::PrepareMode { transition_id: transition, requested_mode: SystemMode::Standby });
    }
    assert!(matches!(service.request_mode(SystemMode::Working), Err(ServiceError::Mode(_))));
}

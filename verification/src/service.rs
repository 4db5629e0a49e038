//! SAM's service: the shared system state that application connections
//! read and change. It ties the registry, health aggregation and the mode
//! transition protocol to the live connections, and says, for every change,
//! which message is to be handed to which application's connection.

use vstd::prelude::*;
use vstd::string::StringExecFns;

use crate::health::{aggregate_health, application_fails, application_health, elapsed, severity, HealthManager};
use crate::text::{debug_application, decimal_text, push_debug_application, push_decimal, lemma_text_precedes_total, lemma_text_precedes_transitive, text_less, text_precedes};
use crate::messages::{ApplicationToSam, SamToApplication};
use crate::mode::{
    committed_step, mode_error_text, phase_mode, ready_step, rejected_step, request_step, ModeErrorView,
    ModeError, ModeEvent, ModeEventView, ModeManager, ModeManagerState, ModeModel, ModePhase,
};
use crate::registry::{fresh_status, ApplicationRegistry, ApplicationStatus};
use crate::state::SystemState;
use crate::table::NameTable;
use crate::types::{ApplicationId, HealthState, SystemMode, TransitionId, PROTOCOL_VERSION};

verus! {

/// Identifies one physical connection of an application, as opposed to
/// its `ApplicationId`: an application that reconnects gets a new one, so
/// a late disconnect or message from a replaced connection can be told
/// apart from the current one.
#[derive(Debug, Clone, Copy, PartialEq, Eq, Hash, Structural)]
pub struct ConnectionId(u64);

impl ConnectionId {
    /// The connection numbered `n`.
    pub closed spec fn numbered(n: u64) -> ConnectionId {
        ConnectionId(n)
    }

    /// The number of the connection.
    pub closed spec fn number(self) -> u64 {
        self.0
    }
}

/// Point-in-time view of one registered application, for reporting.
/// `heartbeat_age` is in milliseconds.
#[derive(Debug, Clone, PartialEq, Eq)]
pub struct ApplicationSnapshot {
    pub application: ApplicationId,
    pub health: HealthState,
    pub effective_health: HealthState,
    pub current_mode: SystemMode,
    pub connected: bool,
    pub synchronized: bool,
    pub heartbeat_age: u64,
}

/// Why the service refused a request.
#[derive(Debug, PartialEq, Eq)]
pub enum ServiceError {
    StateUnavailable,
    StaleConnection(ApplicationId),
    ApplicationMismatch { expected: ApplicationId, actual: ApplicationId },
    DuplicateRegistration,
    Mode(String),
}

/// `ServiceError` with names and texts as character sequences.
pub enum ServiceErrorView {
    StateUnavailable,
    StaleConnection(Seq<char>),
    ApplicationMismatch { expected: Seq<char>, actual: Seq<char> },
    DuplicateRegistration,
    Mode(Seq<char>),
}

impl View for ServiceError {
    type V = ServiceErrorView;

    open spec fn view(&self) -> ServiceErrorView {
        match self {
            ServiceError::StateUnavailable => ServiceErrorView::StateUnavailable,
            ServiceError::StaleConnection(a) => ServiceErrorView::StaleConnection(a@),
            ServiceError::ApplicationMismatch { expected, actual } =>
                ServiceErrorView::ApplicationMismatch { expected: expected@, actual: actual@ },
            ServiceError::DuplicateRegistration => ServiceErrorView::DuplicateRegistration,
            ServiceError::Mode(text) => ServiceErrorView::Mode(text@),
        }
    }
}

/// The description of a service error.
pub open spec fn service_error_text(error: ServiceErrorView) -> Seq<char> {
    match error {
        ServiceErrorView::StateUnavailable => "SAM service state is unavailable"@,
        ServiceErrorView::StaleConnection(name) => "connection is no longer active for "@ + debug_application(name),
        ServiceErrorView::ApplicationMismatch { expected, actual } => "message application "@ + debug_application(
            actual,
        ) + " does not match registered application "@ + debug_application(expected),
        ServiceErrorView::DuplicateRegistration => "registration is only valid as the first message"@,
        ServiceErrorView::Mode(text) => "mode transition failed: "@ + text,
    }
}

impl ServiceError {
    /// The human-readable description of the error.
    pub fn to_string(&self) -> (text: String)
        ensures
            text@ == service_error_text(self@),
    {
        match self {
            ServiceError::StateUnavailable => String::from_str("SAM service state is unavailable"),
            ServiceError::StaleConnection(application) => {
                let mut text = String::from_str("connection is no longer active for ");
                push_debug_application(&mut text, application);
                text
            },
            ServiceError::ApplicationMismatch { expected, actual } => {
                let mut text = String::from_str("message application ");
                push_debug_application(&mut text, actual);
                text.append(" does not match registered application ");
                push_debug_application(&mut text, expected);
                assert(text@ =~= service_error_text(self@));
                text
            },
            ServiceError::DuplicateRegistration => String::from_str("registration is only valid as the first message"),
            ServiceError::Mode(reason) => {
                let mut text = String::from_str("mode transition failed: ");
                text.append(reason.as_str());
                text
            },
        }
    }
}

/// The view of a service result.
pub open spec fn result_view(result: Result<(), ServiceError>) -> Result<(), ServiceErrorView> {
    match result {
        Ok(()) => Ok(()),
        Err(e) => Err(e@),
    }
}

/// A message for the connection of one application. The service decides
/// what is sent to whom; its caller hands each delivery to that
/// application's outbound queue.
#[derive(Debug, Clone, PartialEq, Eq)]
pub struct Delivery {
    pub to: ApplicationId,
    pub message: SamToApplication,
}

/// Whether `deliveries` hand `message` to each of `recipients` exactly
/// once, and to nobody else.
pub open spec fn delivers_to_all(deliveries: Seq<Delivery>, recipients: Set<Seq<char>>, message: SamToApplication) -> bool {
    &&& forall|i: int| 0 <= i < deliveries.len() ==> (#[trigger] deliveries[i]).message == message
        && recipients.contains(deliveries[i].to@)
    &&& forall|i: int, j: int| 0 <= i < j < deliveries.len() ==> (#[trigger] deliveries[i]).to@
        != (#[trigger] deliveries[j]).to@
    &&& forall|name: Seq<char>| #[trigger] recipients.contains(name) ==> exists|i: int|
        0 <= i < deliveries.len() && deliveries[i].to@ == name
}

/// Whether `deliveries` are what a step sends to `recipients`: nothing, or
/// its broadcast to each of them.
pub open spec fn sends(deliveries: Seq<Delivery>, recipients: Set<Seq<char>>, broadcast: Option<SamToApplication>) -> bool {
    match broadcast {
        None => deliveries.len() == 0,
        Some(message) => delivers_to_all(deliveries, recipients, message),
    }
}

/// The abstract state of the service.
pub struct ServiceModel {
    pub system: SystemState,
    pub applications: Map<Seq<char>, ApplicationStatus>,
    pub heartbeat_timeout: u64,
    pub modes: ModeModel,
    /// The current connection of each connected application.
    pub connections: Map<Seq<char>, ConnectionId>,
    pub next_connection_id: u64,
}

/// Whether some connected application reports a mode other than `mode`.
pub open spec fn mode_mismatch(applications: Map<Seq<char>, ApplicationStatus>, mode: SystemMode) -> bool {
    exists|name: Seq<char>| #[trigger] applications.contains_key(name) && applications[name].connected
        && applications[name].current_mode != mode
}

/// System health: `Failed` if the aggregated health is `Failed`;
/// otherwise `Degraded` if it is `Degraded` or a connected application is
/// not yet in the system mode; otherwise `Healthy`.
pub open spec fn system_health(
    applications: Map<Seq<char>, ApplicationStatus>,
    now: u64,
    timeout: u64,
    mode: SystemMode,
) -> HealthState {
    let reported = aggregate_health(applications, now, timeout);
    if reported == HealthState::Failed {
        HealthState::Failed
    } else if reported == HealthState::Degraded || mode_mismatch(applications, mode) {
        HealthState::Degraded
    } else {
        HealthState::Healthy
    }
}

/// `s` with its system health recomputed at `now`.
pub open spec fn with_health(s: ServiceModel, now: u64) -> ServiceModel {
    ServiceModel {
        system: SystemState {
            health: system_health(s.applications, now, s.heartbeat_timeout, s.system.mode),
            ..s.system
        },
        ..s
    }
}

/// The broadcast that announces the system state.
pub open spec fn state_broadcast(system: SystemState) -> SamToApplication {
    SamToApplication::StateBroadcast { mode: system.mode, health: system.health }
}

/// `s` with its health recomputed at `now`, and the announcement of the
/// new state if the health changed.
pub open spec fn health_refreshed(s: ServiceModel, now: u64) -> (ServiceModel, Option<SamToApplication>) {
    let recalculated = with_health(s, now);
    if recalculated.system.health != s.system.health {
        (recalculated, Some(state_broadcast(recalculated.system)))
    } else {
        (recalculated, None)
    }
}

/// Mode errors that only mean a response arrived too late (its transition
/// is over, was superseded, or no longer awaits this application).
pub open spec fn is_late(error: ModeErrorView) -> bool {
    error is InvalidPhase || error is StaleTransition || error is UnknownParticipant
}

/// The outcome of a step that handles a message: what it broadcasts, or
/// why the message was refused.
pub type StepOutcome = Result<Option<SamToApplication>, ServiceErrorView>;

/// The service's answer to a refused mode response.
pub open spec fn refused_response(s: ServiceModel, error: ModeErrorView) -> (ServiceModel, StepOutcome) {
    if is_late(error) {
        (s, Ok(None))
    } else {
        (s, Err(ServiceErrorView::Mode(mode_error_text(error))))
    }
}

/// A heartbeat of `name` reporting `health` and `mode`.
pub open spec fn heartbeat_step(s: ServiceModel, name: Seq<char>, health: HealthState, mode: SystemMode, now: u64) -> (
    ServiceModel,
    Option<SamToApplication>,
) {
    let updated = ServiceModel {
        applications: s.applications.insert(
            name,
            ApplicationStatus { current_mode: mode, health, last_heartbeat: now, connected: true },
        ),
        ..s
    };
    health_refreshed(updated, now)
}

/// A ready answer of `name` to transition `id`.
pub open spec fn ready_response(s: ServiceModel, name: Seq<char>, id: TransitionId) -> (ServiceModel, StepOutcome) {
    let (modes, result) = ready_step(s.modes, name, id);
    match result {
        Err(e) => refused_response(s, e),
        Ok(Some(ModeEventView::PreparationComplete { transition_id, target_mode })) => (
            ServiceModel { modes, ..s },
            Ok(Some(SamToApplication::CommitMode { transition_id, mode: target_mode })),
        ),
        Ok(_) => (ServiceModel { modes, ..s }, Ok(None)),
    }
}

/// A rejection by `name` of transition `id`.
pub open spec fn rejected_response(s: ServiceModel, name: Seq<char>, id: TransitionId, reason: Seq<char>) -> (
    ServiceModel,
    StepOutcome,
) {
    let (modes, result) = rejected_step(s.modes, name, id, reason);
    match result {
        Err(e) => refused_response(s, e),
        Ok(_) => (ServiceModel { modes, ..s }, Ok(Some(SamToApplication::AbortMode { transition_id: id }))),
    }
}

/// A commit confirmation by `name` of `mode` for transition `id`.
pub open spec fn committed_response(s: ServiceModel, name: Seq<char>, id: TransitionId, mode: SystemMode, now: u64) -> (
    ServiceModel,
    StepOutcome,
) {
    let (modes, result) = committed_step(s.modes, name, id, mode);
    match result {
        Err(e) => refused_response(s, e),
        Ok(event) => {
            let recorded = ServiceModel {
                modes,
                applications: s.applications.insert(name, ApplicationStatus { current_mode: mode, ..s.applications[name] }),
                ..s
            };
            match event {
                Some(ModeEventView::TransitionComplete { mode: new_mode, .. }) => {
                    let switched = with_health(
                        ServiceModel { system: SystemState { mode: new_mode, ..recorded.system }, ..recorded },
                        now,
                    );
                    (switched, Ok(Some(state_broadcast(switched.system))))
                },
                _ => (recorded, Ok(None)),
            }
        },
    }
}

/// What the end of connection `connection` of application `name` does to
/// `s`: if it is the application's current connection, the connection is
/// dropped, the application kept as disconnected, health recomputed and the
/// new state broadcast; a connection that was already replaced changes
/// nothing.
pub open spec fn disconnect_step(s: ServiceModel, name: Seq<char>, connection: ConnectionId, now: u64) -> (
    ServiceModel,
    Option<SamToApplication>,
) {
    if s.connections.contains_key(name) && s.connections[name] == connection {
        let dropped = with_health(
            ServiceModel {
                connections: s.connections.remove(name),
                applications: s.applications.insert(name, ApplicationStatus { connected: false, ..s.applications[name] }),
                ..s
            },
            now,
        );
        (dropped, Some(state_broadcast(dropped.system)))
    } else {
        (s, None)
    }
}

/// The first step of a registration of `name` at `now`: the application is
/// registered afresh, health recomputed, the next connection number taken,
/// and the `RegisterAccepted` reply with the resulting system state made.
pub open spec fn register_step(s: ServiceModel, name: Seq<char>, now: u64) -> (ServiceModel, ConnectionId, SamToApplication) {
    let registered = with_health(
        ServiceModel {
            applications: s.applications.insert(name, fresh_status(now)),
            next_connection_id: crate::mode::following_id(s.next_connection_id),
            ..s
        },
        now,
    );
    (
        registered,
        ConnectionId::numbered(s.next_connection_id),
        SamToApplication::RegisterAccepted {
            protocol_version: PROTOCOL_VERSION,
            current_mode: registered.system.mode,
            system_health: registered.system.health,
        },
    )
}

/// What handling `message`, received on connection `connection` of the
/// application registered as `registered`, does to `s`, and what it
/// broadcasts or why it is refused.
pub open spec fn handle_step(
    s: ServiceModel,
    registered: Seq<char>,
    connection: ConnectionId,
    message: ApplicationToSam,
    now: u64,
) -> (ServiceModel, StepOutcome) {
    if !(s.connections.contains_key(registered) && s.connections[registered] == connection) {
        (s, Err(ServiceErrorView::StaleConnection(registered)))
    } else if message is Register {
        (s, Err(ServiceErrorView::DuplicateRegistration))
    } else if message.sender() != registered {
        (s, Err(ServiceErrorView::ApplicationMismatch { expected: registered, actual: message.sender() }))
    } else {
        match message {
            ApplicationToSam::Heartbeat { health, current_mode, .. } => {
                let (post, sent) = heartbeat_step(s, registered, health, current_mode, now);
                (post, Ok(sent))
            },
            ApplicationToSam::ModeReady { transition_id, .. } => ready_response(s, registered, transition_id),
            ApplicationToSam::ModeRejected { transition_id, reason, .. } => rejected_response(
                s,
                registered,
                transition_id,
                reason@,
            ),
            ApplicationToSam::ModeCommitted { transition_id, mode, .. } => committed_response(
                s,
                registered,
                transition_id,
                mode,
                now,
            ),
            ApplicationToSam::Register { .. } => (s, Err(ServiceErrorView::DuplicateRegistration)),
        }
    }
}

/// Whether `result` is what a step with `outcome` returns when its
/// broadcasts go to `recipients`.
pub open spec fn delivered(
    result: Result<Vec<Delivery>, ServiceError>,
    outcome: StepOutcome,
    recipients: Set<Seq<char>>,
) -> bool {
    match (result, outcome) {
        (Ok(deliveries), Ok(sent)) => sends(deliveries@, recipients, sent),
        (Err(e), Err(refusal)) => e@ == refusal,
        _ => false,
    }
}

/// A registration whose reply still has to be handed to the new
/// connection; `SamService::complete_registration` finishes it.
pub struct PendingRegistration {
    application: ApplicationId,
    connection_id: ConnectionId,
    reply: SamToApplication,
}

impl PendingRegistration {
    pub closed spec fn spec_application(&self) -> Seq<char> {
        self.application@
    }

    pub closed spec fn spec_connection(&self) -> ConnectionId {
        self.connection_id
    }

    pub closed spec fn spec_reply(&self) -> SamToApplication {
        self.reply
    }

    /// The reply to hand to the new connection.
    pub fn reply(&self) -> (reply: &SamToApplication)
        ensures
            *reply == self.spec_reply(),
    {
        &self.reply
    }

    /// The application being registered.
    pub fn application(&self) -> (application: &ApplicationId)
        ensures
            application@ == self.spec_application(),
    {
        &self.application
    }
}

/// SAM's live system state: registered applications, aggregated health,
/// the mode transition in progress (if any), and the current connection
/// of each connected application.
pub struct SamService {
    system: SystemState,
    applications: ApplicationRegistry,
    health: HealthManager,
    modes: ModeManager,
    clients: NameTable<ConnectionId>,
    next_connection_id: u64,
}

impl View for SamService {
    type V = ServiceModel;

    closed spec fn view(&self) -> ServiceModel {
        ServiceModel {
            system: self.system,
            applications: self.applications@,
            heartbeat_timeout: self.health.timeout(),
            modes: self.modes@,
            connections: self.clients@,
            next_connection_id: self.next_connection_id,
        }
    }
}

/// Whether `error` only means that a response arrived too late.
fn is_late_transition_response(error: &ModeError) -> (late: bool)
    ensures
        late == is_late(error@),
{
    match error {
        ModeError::InvalidPhase | ModeError::StaleTransition | ModeError::UnknownParticipant(_) => true,
        _ => false,
    }
}

/// Checks that a message names the application its connection registered
/// as.
fn verify_application(expected: &ApplicationId, actual: &ApplicationId) -> (result: Result<(), ServiceError>)
    ensures
        result_view(result) == if expected@ == actual@ {
            Ok(())
        } else {
            Err(ServiceErrorView::ApplicationMismatch { expected: expected@, actual: actual@ })
        },
{
    if *expected == *actual {
        Ok(())
    } else {
        Err(ServiceError::ApplicationMismatch { expected: expected.duplicate(), actual: actual.duplicate() })
    }
}

/// An application's health as shown to an operator: `Failed` if SAM
/// judges it failed, otherwise `Degraded` if it reports `Degraded` or is
/// not yet synchronized with the system mode, otherwise `Healthy`.
pub open spec fn effective_health(base: HealthState, synchronized: bool) -> HealthState {
    if base == HealthState::Failed {
        HealthState::Failed
    } else if !synchronized || base == HealthState::Degraded {
        HealthState::Degraded
    } else {
        HealthState::Healthy
    }
}

fn effective_application_health(base_health: HealthState, synchronized: bool) -> (health: HealthState)
    ensures
        health == effective_health(base_health, synchronized),
{
    if base_health == HealthState::Failed {
        HealthState::Failed
    } else if !synchronized || base_health == HealthState::Degraded {
        HealthState::Degraded
    } else {
        HealthState::Healthy
    }
}

/// What the first message of a new connection decides: the application
/// it registers, or the `RegisterRejected` answer to send before closing.
/// The first message must be a `Register` carrying this build's protocol
/// version.
pub fn registration_decision(first: ApplicationToSam) -> (decision: Result<ApplicationId, SamToApplication>)
    ensures
        match first {
            ApplicationToSam::Register { application, protocol_version } => if protocol_version == PROTOCOL_VERSION {
                decision matches Ok(a) && a@ == application@
            } else {
                decision matches Err(SamToApplication::RegisterRejected { supported_protocol_version, reason })
                    && supported_protocol_version == PROTOCOL_VERSION
                    && reason@ == "unsupported protocol version "@ + decimal_text(protocol_version as nat)
            },
            _ => decision matches Err(SamToApplication::RegisterRejected { supported_protocol_version, reason })
                && supported_protocol_version == PROTOCOL_VERSION && reason@ == "first message must be Register"@,
        },
{
    proof {
        reveal_strlit("unsupported protocol version ");
        reveal_strlit("first message must be Register");
    }
    match first {
        ApplicationToSam::Register { application, protocol_version } => {
            if protocol_version != PROTOCOL_VERSION {
                let mut reason = String::from_str("unsupported protocol version ");
                push_decimal(&mut reason, protocol_version as u64);
                return Err(SamToApplication::RegisterRejected { supported_protocol_version: PROTOCOL_VERSION, reason });
            }
            Ok(application)
        },
        _ => Err(SamToApplication::RegisterRejected {
            supported_protocol_version: PROTOCOL_VERSION,
            reason: String::from_str("first message must be Register"),
        }),
    }
}

/// Whether `snapshot` reports application `name` with status `status` at
/// `now`, given the heartbeat timeout and the system mode.
pub open spec fn describes(
    snapshot: ApplicationSnapshot,
    name: Seq<char>,
    status: ApplicationStatus,
    now: u64,
    timeout: u64,
    mode: SystemMode,
) -> bool {
    let synchronized = status.connected && status.current_mode == mode;
    &&& snapshot.application@ == name
    &&& snapshot.health == status.health
    &&& snapshot.effective_health == effective_health(application_health(status, now, timeout), synchronized)
    &&& snapshot.current_mode == status.current_mode
    &&& snapshot.connected == status.connected
    &&& snapshot.synchronized == synchronized
    &&& snapshot.heartbeat_age == elapsed(now, status.last_heartbeat)
}

/// Whether `snapshots` are in strictly increasing order of name.
pub open spec fn sorted_by_name(snapshots: Seq<ApplicationSnapshot>) -> bool {
    forall|i: int, j: int| 0 <= i < j < snapshots.len()
        ==> text_precedes(#[trigger] snapshots[i].application@, #[trigger] snapshots[j].application@)
}

/// Inserts `snapshot` at its place in `out`, which is sorted by name and
/// does not hold its name yet.
fn insert_sorted(out: &mut Vec<ApplicationSnapshot>, snapshot: ApplicationSnapshot)
    requires
        sorted_by_name(old(out)@),
        forall|i: int| 0 <= i < old(out)@.len() ==> (#[trigger] old(out)@[i]).application@ != snapshot.application@,
    ensures
        sorted_by_name(final(out)@),
        final(out)@.len() == old(out)@.len() + 1,
        forall|i: int| 0 <= i < final(out)@.len() ==> #[trigger] final(out)@[i] == snapshot || exists|j: int|
            0 <= j < old(out)@.len() && final(out)@[i] == old(out)@[j],
        exists|i: int| 0 <= i < final(out)@.len() && final(out)@[i] == snapshot,
        forall|j: int| 0 <= j < old(out)@.len() ==> exists|i: int|
            0 <= i < final(out)@.len() && final(out)@[i] == #[trigger] old(out)@[j],
{
    let ghost before = out@;
    let mut p: usize = 0;
    while p < out.len()
        invariant
            out@ == before,
            sorted_by_name(before),
            forall|i: int| 0 <= i < before.len() ==> (#[trigger] before[i]).application@ != snapshot.application@,
            p <= out@.len(),
            forall|i: int| 0 <= i < p ==> text_precedes(#[trigger] out@[i].application@, snapshot.application@),
        ensures
            p <= out@.len(),
            forall|i: int| 0 <= i < p ==> text_precedes(#[trigger] out@[i].application@, snapshot.application@),
            p < out@.len() ==> text_precedes(snapshot.application@, out@[p as int].application@),
        decreases out@.len() - p,
    {
        if text_less(snapshot.application.0.as_str(), out[p].application.0.as_str()) {
            break;
        }
        proof {
            assert(before[p as int].application@ != snapshot.application@);
            lemma_text_precedes_total(out@[p as int].application@, snapshot.application@);
        }
        p = p + 1;
    }
    proof {
        if p < out@.len() {
            assert forall|i: int| p <= i < out@.len() implies text_precedes(snapshot.application@, #[trigger] out@[i].application@) by {
                if i > p {
                    lemma_text_precedes_transitive(snapshot.application@, out@[p as int].application@, out@[i].application@);
                }
            }
        }
    }
    out.insert(p, snapshot);
    proof {
        lemma_insert_keeps_order(before, out@[p as int], p as int);
    }
}

proof fn lemma_insert_keeps_order(before: Seq<ApplicationSnapshot>, x: ApplicationSnapshot, k: int)
    requires
        0 <= k <= before.len(),
        sorted_by_name(before),
        forall|i: int| 0 <= i < k ==> text_precedes(#[trigger] before[i].application@, x.application@),
        forall|i: int| k <= i < before.len() ==> text_precedes(x.application@, #[trigger] before[i].application@),
    ensures
        sorted_by_name(before.insert(k, x)),
        before.insert(k, x).len() == before.len() + 1,
        forall|i: int| 0 <= i < before.insert(k, x).len() ==> #[trigger] before.insert(k, x)[i] == x || exists|j: int|
            0 <= j < before.len() && before.insert(k, x)[i] == before[j],
        exists|i: int| 0 <= i < before.insert(k, x).len() && before.insert(k, x)[i] == x,
        forall|j: int| 0 <= j < before.len() ==> exists|i: int|
            0 <= i < before.insert(k, x).len() && before.insert(k, x)[i] == #[trigger] before[j],
{
    let after = before.insert(k, x);
    assert forall|i: int, j: int| 0 <= i < j < after.len()
        implies text_precedes(#[trigger] after[i].application@, #[trigger] after[j].application@) by {
        if i < k && j > k {
            assert(after[j] == before[j - 1]);
            lemma_text_precedes_transitive(before[i].application@, x.application@, before[j - 1].application@);
        } else if i > k {
            assert(after[i] == before[i - 1]);
            assert(after[j] == before[j - 1]);
        } else if i == k {
            assert(after[j] == before[j - 1]);
        }
    }
    assert forall|i: int| 0 <= i < after.len() implies #[trigger] after[i] == x || exists|j: int|
        0 <= j < before.len() && after[i] == before[j] by {
        if i < k {
            assert(after[i] == before[i]);
        } else if i > k {
            assert(after[i] == before[i - 1]);
        }
    }
    assert(after[k] == x);
    assert forall|j: int| 0 <= j < before.len() implies exists|i: int|
        0 <= i < after.len() && after[i] == #[trigger] before[j] by {
        if j < k {
            assert(after[j] == before[j]);
        } else {
            assert(after[j + 1] == before[j]);
        }
    }
}

impl SamService {
    /// The parts are well formed, every connected application is
    /// registered, and the system mode is the mode manager's.
    pub closed spec fn wf(&self) -> bool {
        &&& self.applications.wf()
        &&& self.modes.wf()
        &&& self.clients.wf()
        &&& forall|name: Seq<char>| #[trigger] self.clients@.contains_key(name) ==> self.applications@.contains_key(name)
        &&& phase_mode(self.modes@.phase) == self.system.mode
    }

    /// A service in which `heartbeat_timeout` milliseconds of silence
    /// fail an application.
    pub fn new(heartbeat_timeout: u64) -> (service: Self)
        ensures
            service.wf(),
            service@.system == (SystemState { mode: SystemMode::Startup, health: HealthState::Healthy }),
            service@.applications == Map::<Seq<char>, ApplicationStatus>::empty(),
            service@.heartbeat_timeout == heartbeat_timeout,
            service@.modes.phase == (ModePhase::Stable { mode: SystemMode::Startup }),
            service@.modes.next_transition_id == 1,
            service@.connections == Map::<Seq<char>, ConnectionId>::empty(),
            service@.next_connection_id == 1,
    {
        let system = SystemState::default();
        SamService {
            modes: ModeManager::new(system.mode),
            system,
            applications: ApplicationRegistry::default(),
            health: HealthManager::new(heartbeat_timeout),
            clients: NameTable::new(),
            next_connection_id: 1,
        }
    }

    fn recalculate_health(&mut self, now: u64)
        requires
            old(self).wf(),
        ensures
            final(self).wf(),
            final(self)@ == with_health(old(self)@, now),
    {
        let reported = self.health.calculate(&self.applications, now);
        let entries = self.applications.iter();
        let mut mismatch = false;
        let mut i: usize = 0;
        while i < entries.len()
            invariant
                self.applications.wf(),
                i <= entries@.len(),
                forall|j: int| 0 <= j < entries@.len() ==> self.applications@.contains_key(#[trigger] entries@[j].0@)
                    && *entries@[j].1 == self.applications@[entries@[j].0@],
                forall|name: Seq<char>| #[trigger] self.applications@.contains_key(name) ==> exists|j: int|
                    0 <= j < entries@.len() && entries@[j].0@ == name,
                mismatch == exists|j: int| 0 <= j < i && (#[trigger] entries@[j].1).connected
                    && entries@[j].1.current_mode != self.system.mode,
            decreases entries@.len() - i,
        {
            let status = entries[i].1;
            if status.connected && status.current_mode != self.system.mode {
                mismatch = true;
            }
            i = i + 1;
        }
        proof {
            let apps = self.applications@;
            if mismatch {
                let j = choose|j: int| 0 <= j < i && (#[trigger] entries@[j].1).connected
                    && entries@[j].1.current_mode != self.system.mode;
                assert(apps.contains_key(entries@[j].0@));
            } else {
                assert forall|name: Seq<char>| #[trigger] apps.contains_key(name) implies !(apps[name].connected
                    && apps[name].current_mode != self.system.mode) by {
                    let j = choose|j: int| 0 <= j < entries@.len() && entries@[j].0@ == name;
                    assert(!((entries@[j].1).connected && entries@[j].1.current_mode != self.system.mode));
                }
            }
            assert(mismatch == mode_mismatch(apps, self.system.mode));
        }
        self.system.health = if reported == HealthState::Failed {
            HealthState::Failed
        } else if reported == HealthState::Degraded || mismatch {
            HealthState::Degraded
        } else {
            HealthState::Healthy
        };
    }

    /// `message` for every connected application, once each.
    fn broadcast(&self, message: &SamToApplication) -> (deliveries: Vec<Delivery>)
        requires
            self.wf(),
        ensures
            delivers_to_all(deliveries@, self@.connections.dom(), *message),
    {
        proof {
            self.clients.lemma_rows();
        }
        let count = self.clients.len();
        let mut deliveries: Vec<Delivery> = Vec::new();
        let mut i: usize = 0;
        while i < count
            invariant
                self.clients.wf(),
                count == self.clients.rows().len(),
                i <= count,
                deliveries@.len() == i,
                forall|k: int| 0 <= k < self.clients.rows().len() ==> self.clients@.contains_key(
                    #[trigger] self.clients.rows()[k].0,
                ),
                forall|a: int, b: int|
                    0 <= a < self.clients.rows().len() && 0 <= b < self.clients.rows().len() && a != b
                        ==> self.clients.rows()[a].0 != self.clients.rows()[b].0,
                forall|k: int| 0 <= k < i ==> (#[trigger] deliveries@[k]).message == *message
                    && deliveries@[k].to@ == self.clients.rows()[k].0,
            decreases count - i,
        {
            let (name, _) = self.clients.row(i);
            deliveries.push(Delivery { to: name.duplicate(), message: message.duplicate() });
            i = i + 1;
        }
        proof {
            assert forall|name: Seq<char>| #[trigger] self@.connections.dom().contains(name) implies exists|k: int|
                0 <= k < deliveries@.len() && deliveries@[k].to@ == name by {
                let k = choose|k: int| 0 <= k < self.clients.rows().len() && self.clients.rows()[k].0 == name;
                assert(deliveries@[k].to@ == name);
            }
        }
        deliveries
    }

    /// The announcement of the current system state to every connected
    /// application.
    fn broadcast_state(&self) -> (deliveries: Vec<Delivery>)
        requires
            self.wf(),
        ensures
            delivers_to_all(deliveries@, self@.connections.dom(), state_broadcast(self@.system)),
    {
        let message = SamToApplication::StateBroadcast { mode: self.system.mode, health: self.system.health };
        self.broadcast(&message)
    }

    /// Starts registering a new connection of `application` at `now`: the
    /// application is registered afresh (replacing any earlier status),
    /// health recomputed, and a new `ConnectionId` taken. The result holds
    /// the `RegisterAccepted` reply, with the resulting system state, to be
    /// handed to the new connection; `complete_registration` then makes the
    /// connection current, or not if the reply could not be handed over.
    pub fn register(&mut self, application: ApplicationId, now: u64) -> (pending: PendingRegistration)
        requires
            old(self).wf(),
        ensures
            final(self).wf(),
            ({
                let (post, id, reply) = register_step(old(self)@, application@, now);
                &&& final(self)@ == post
                &&& pending.spec_application() == application@
                &&& pending.spec_connection() == id
                &&& pending.spec_reply() == reply
            }),
    {
        let id = ConnectionId(self.next_connection_id);
        self.next_connection_id = self.next_connection_id.wrapping_add(1);
        self.applications.register(application.duplicate(), now);
        self.recalculate_health(now);
        let reply = SamToApplication::RegisterAccepted {
            protocol_version: PROTOCOL_VERSION,
            current_mode: self.system.mode,
            system_health: self.system.health,
        };
        PendingRegistration { application, connection_id: id, reply }
    }

    /// Finishes a registration once its reply was handed to the new
    /// connection (`queued`) or could not be. If it was, the new connection
    /// becomes the application's current one, replacing any earlier one,
    /// whose `ConnectionId` stops being accepted. If it could not be, the
    /// registration fails with `StateUnavailable`: the application stays
    /// registered but has no connection.
    pub fn complete_registration(&mut self, pending: PendingRegistration, queued: bool) -> (result: Result<
        ConnectionId,
        ServiceError,
    >)
        requires
            old(self).wf(),
        ensures
            final(self).wf(),
            ({
                let pre = old(self)@;
                let name = pending.spec_application();
                if queued && pre.applications.contains_key(name) {
                    &&& result == Ok::<ConnectionId, ServiceError>(pending.spec_connection())
                    &&& final(self)@ == ServiceModel {
                        connections: pre.connections.insert(name, pending.spec_connection()),
                        ..pre
                    }
                } else {
                    result == Err::<ConnectionId, ServiceError>(ServiceError::StateUnavailable) && final(self)@ == pre
                }
            }),
    {
        let registered = match self.applications.get(&pending.application) {
            Some(_) => true,
            None => false,
        };
        if !queued || !registered {
            return Err(ServiceError::StateUnavailable);
        }
        let id = pending.connection_id;
        self.clients.insert(pending.application, id);
        Ok(id)
    }

    /// Whether `connection_id` is the current connection of `application`.
    pub fn is_current_connection(&self, application: &ApplicationId, connection_id: ConnectionId) -> (current: bool)
        requires
            self.wf(),
        ensures
            current == (self@.connections.contains_key(application@) && self@.connections[application@]
                == connection_id),
    {
        match self.clients.get(application) {
            Some(id) => *id == connection_id,
            None => false,
        }
    }

    /// Marks `application` disconnected, but only if `connection_id` is
    /// still its current connection: a late disconnect of a replaced
    /// connection changes nothing and sends nothing. Otherwise its
    /// connection is dropped, its registry entry kept as disconnected,
    /// health recomputed, and the new system state sent to every
    /// application still connected.
    pub fn disconnect(&mut self, application: &ApplicationId, connection_id: ConnectionId, now: u64) -> (result: Result<
        Vec<Delivery>,
        ServiceError,
    >)
        requires
            old(self).wf(),
        ensures
            final(self).wf(),
            ({
                let (post, sent) = disconnect_step(old(self)@, application@, connection_id, now);
                &&& final(self)@ == post
                &&& result matches Ok(deliveries) && sends(deliveries@, post.connections.dom(), sent)
            }),
    {
        if !self.is_current_connection(application, connection_id) {
            return Ok(Vec::new());
        }
        self.clients.remove(application);
        let _ = self.applications.mark_disconnected(application);
        self.recalculate_health(now);
        Ok(self.broadcast_state())
    }

    fn verify_connection(&self, application: &ApplicationId, id: ConnectionId) -> (result: Result<(), ServiceError>)
        requires
            self.wf(),
        ensures
            result_view(result) == if self@.connections.contains_key(application@)
                && self@.connections[application@] == id {
                Ok(())
            } else {
                Err(ServiceErrorView::StaleConnection(application@))
            },
    {
        if self.is_current_connection(application, id) {
            Ok(())
        } else {
            Err(ServiceError::StaleConnection(application.duplicate()))
        }
    }

    /// Applies one message from the connection `connection_id` of the
    /// application registered as `registered`, and returns what is to be
    /// sent because of it.
    ///
    /// The connection must be the application's current one, and the
    /// message must carry the registered identity: a connection only ever
    /// speaks for the application it registered as. Heartbeats update the
    /// registry and health; mode responses drive the transition in
    /// progress, sending `CommitMode` to every connected application once
    /// everyone is ready, `AbortMode` on a rejection, and the new system
    /// state once everyone has committed. A response that merely arrives
    /// too late is ignored. A refused message changes nothing and sends
    /// nothing.
    pub fn handle_message(
        &mut self,
        registered: &ApplicationId,
        connection_id: ConnectionId,
        message: ApplicationToSam,
        now: u64,
    ) -> (result: Result<Vec<Delivery>, ServiceError>)
        requires
            old(self).wf(),
        ensures
            final(self).wf(),
            ({
                let (post, outcome) = handle_step(old(self)@, registered@, connection_id, message, now);
                &&& final(self)@ == post
                &&& delivered(result, outcome, post.connections.dom())
            }),
    {
        match self.verify_connection(registered, connection_id) {
            Ok(()) => {},
            Err(error) => {
                return Err(error);
            },
        }
        match message {
            ApplicationToSam::Register { .. } => Err(ServiceError::DuplicateRegistration),
            ApplicationToSam::Heartbeat { application, health, current_mode } => {
                match verify_application(registered, &application) {
                    Ok(()) => {},
                    Err(error) => {
                        return Err(error);
                    },
                }
                Ok(self.record_heartbeat(&application, health, current_mode, now))
            },
            ApplicationToSam::ModeReady { application, transition_id } => {
                match verify_application(registered, &application) {
                    Ok(()) => {},
                    Err(error) => {
                        return Err(error);
                    },
                }
                self.record_ready(&application, transition_id)
            },
            ApplicationToSam::ModeRejected { application, transition_id, reason } => {
                match verify_application(registered, &application) {
                    Ok(()) => {},
                    Err(error) => {
                        return Err(error);
                    },
                }
                self.record_rejected(&application, transition_id, reason)
            },
            ApplicationToSam::ModeCommitted { application, transition_id, mode } => {
                match verify_application(registered, &application) {
                    Ok(()) => {},
                    Err(error) => {
                        return Err(error);
                    },
                }
                self.record_committed(&application, transition_id, mode, now)
            },
        }
    }

    fn record_heartbeat(&mut self, application: &ApplicationId, health: HealthState, mode: SystemMode, now: u64) -> (deliveries: Vec<Delivery>)
        requires
            old(self).wf(),
            old(self)@.connections.contains_key(application@),
        ensures
            final(self).wf(),
            ({
                let (post, sent) = heartbeat_step(old(self)@, application@, health, mode, now);
                &&& final(self)@ == post
                &&& sends(deliveries@, post.connections.dom(), sent)
            }),
    {
        match self.applications.update_heartbeat(application, health, mode, now) {
            Ok(()) => {},
            Err(_) => {
                proof {
                    assert(false);
                }
                return Vec::new();
            },
        }
        self.refresh(now)
    }

    /// Recomputes health at `now` and announces the state if the health
    /// changed.
    fn refresh(&mut self, now: u64) -> (deliveries: Vec<Delivery>)
        requires
            old(self).wf(),
        ensures
            final(self).wf(),
            ({
                let (post, sent) = health_refreshed(old(self)@, now);
                &&& final(self)@ == post
                &&& sends(deliveries@, post.connections.dom(), sent)
            }),
    {
        let previous = self.system.health;
        self.recalculate_health(now);
        if previous != self.system.health {
            self.broadcast_state()
        } else {
            Vec::new()
        }
    }

    /// The answer to a refused mode response: accepted and ignored if it
    /// only came too late, refused otherwise.
    fn refusal(error: ModeError) -> (result: Result<Vec<Delivery>, ServiceError>)
        ensures
            ({
                let outcome: StepOutcome = if is_late(error@) {
                    Ok(None)
                } else {
                    Err(ServiceErrorView::Mode(mode_error_text(error@)))
                };
                delivered(result, outcome, Set::empty())
            }),
    {
        if is_late_transition_response(&error) {
            Ok(Vec::new())
        } else {
            Err(ServiceError::Mode(error.to_string()))
        }
    }

    fn record_ready(&mut self, application: &ApplicationId, transition_id: TransitionId) -> (result: Result<Vec<Delivery>, ServiceError>)
        requires
            old(self).wf(),
        ensures
            final(self).wf(),
            ({
                let (post, outcome) = ready_response(old(self)@, application@, transition_id);
                &&& final(self)@ == post
                &&& delivered(result, outcome, post.connections.dom())
            }),
    {
        match self.modes.application_ready(application, transition_id) {
            Ok(event) => match event {
                Some(ModeEvent::PreparationComplete { transition_id, target_mode }) => {
                    Ok(self.broadcast(&SamToApplication::CommitMode { transition_id, mode: target_mode }))
                },
                _ => Ok(Vec::new()),
            },
            Err(error) => Self::refusal(error),
        }
    }

    fn record_rejected(&mut self, application: &ApplicationId, transition_id: TransitionId, reason: String) -> (result: Result<Vec<Delivery>, ServiceError>)
        requires
            old(self).wf(),
        ensures
            final(self).wf(),
            ({
                let (post, outcome) = rejected_response(old(self)@, application@, transition_id, reason@);
                &&& final(self)@ == post
                &&& delivered(result, outcome, post.connections.dom())
            }),
    {
        match self.modes.application_rejected(application, transition_id, reason) {
            Ok(_) => Ok(self.broadcast(&SamToApplication::AbortMode { transition_id })),
            Err(error) => Self::refusal(error),
        }
    }

    fn record_committed(&mut self, application: &ApplicationId, transition_id: TransitionId, mode: SystemMode, now: u64) -> (result: Result<Vec<Delivery>, ServiceError>)
        requires
            old(self).wf(),
            old(self)@.connections.contains_key(application@),
        ensures
            final(self).wf(),
            ({
                let (post, outcome) = committed_response(old(self)@, application@, transition_id, mode, now);
                &&& final(self)@ == post
                &&& delivered(result, outcome, post.connections.dom())
            }),
    {
        let event = match self.modes.application_committed(application, transition_id, mode) {
            Ok(event) => event,
            Err(error) => {
                return Self::refusal(error);
            },
        };
        match self.applications.set_mode(application, mode) {
            Ok(()) => {},
            Err(error) => {
                proof {
                    assert(false);
                }
                return Err(ServiceError::Mode(error.to_string()));
            },
        }
        match event {
            Some(ModeEvent::TransitionComplete { mode, .. }) => {
                self.system.mode = mode;
                self.recalculate_health(now);
                Ok(self.broadcast_state())
            },
            _ => Ok(Vec::new()),
        }
    }

    /// Begins a coordinated transition to `target` across every connected
    /// application, and returns the `PrepareMode` request for each of them.
    /// A refused request changes nothing and sends nothing.
    pub fn request_mode(&mut self, target: SystemMode) -> (result: Result<(TransitionId, Vec<Delivery>), ServiceError>)
        requires
            old(self).wf(),
        ensures
            final(self).wf(),
            phase_mode(old(self)@.modes.phase) == old(self)@.system.mode,
            ({
                let pre = old(self)@;
                let (modes, outcome) = request_step(pre.modes, target, pre.connections.dom());
                match result {
                    Ok((id, deliveries)) => {
                        &&& outcome == Ok::<TransitionId, ModeErrorView>(id)
                        &&& final(self)@ == ServiceModel { modes, ..pre }
                        &&& delivers_to_all(
                            deliveries@,
                            pre.connections.dom(),
                            SamToApplication::PrepareMode { transition_id: id, requested_mode: target },
                        )
                    },
                    Err(e) => outcome matches Err(refusal) && e@ == ServiceErrorView::Mode(mode_error_text(refusal))
                        && final(self)@ == pre,
                }
            }),
    {
        let participants = self.clients.names();
        proof {
            assert(self.clients@.dom() =~= self@.connections.dom());
        }
        match self.modes.request_transition(target, participants) {
            Ok(id) => {
                let deliveries = self.broadcast(&SamToApplication::PrepareMode { transition_id: id, requested_mode: target });
                Ok((id, deliveries))
            },
            Err(error) => Err(ServiceError::Mode(error.to_string())),
        }
    }

    /// The current system mode and aggregated health.
    pub fn snapshot(&self) -> (state: Result<SystemState, ServiceError>)
        ensures
            state == Ok::<SystemState, ServiceError>(self@.system),
            self.wf() ==> self@.system.mode == phase_mode(self@.modes.phase),
    {
        Ok(self.system)
    }

    /// The system mode is always the mode manager's: the mode it is stable
    /// in, or the mode a transition under way started from.
    pub proof fn lemma_system_mode_is_the_managers(&self)
        requires
            self.wf(),
        ensures
            self@.system.mode == phase_mode(self@.modes.phase),
    {
    }

    /// Whether the mode manager is collecting prepare or commit responses,
    /// which tells a transition that is still under way from one that was
    /// rejected.
    pub fn transition_in_progress(&self) -> (in_progress: Result<bool, ServiceError>)
        ensures
            in_progress == Ok::<bool, ServiceError>(!(self@.modes.phase is Stable)),
    {
        match self.modes.state() {
            ModeManagerState::Stable { .. } => Ok(false),
            _ => Ok(true),
        }
    }

    /// Recomputes the aggregated health at `now` and, if it changed,
    /// returns the announcement of the system state for every connected
    /// application, so that a heartbeat that simply stops arriving is
    /// noticed without any new message.
    pub fn refresh_health(&mut self, now: u64) -> (result: Result<Vec<Delivery>, ServiceError>)
        requires
            old(self).wf(),
        ensures
            final(self).wf(),
            ({
                let (post, sent) = health_refreshed(old(self)@, now);
                &&& final(self)@ == post
                &&& result matches Ok(deliveries) && sends(deliveries@, post.connections.dom(), sent)
            }),
    {
        Ok(self.refresh(now))
    }

    /// A snapshot of every known application at `now`, sorted by name. An
    /// application is synchronized when it is connected and in the system
    /// mode; until then its effective health is at best `Degraded`.
    #[verifier::rlimit(40)]
    pub fn applications(&self, now: u64) -> (snapshots: Result<Vec<ApplicationSnapshot>, ServiceError>)
        requires
            self.wf(),
        ensures
            snapshots matches Ok(list) && {
                &&& sorted_by_name(list@)
                &&& forall|i: int| 0 <= i < list@.len() ==> self@.applications.contains_key(#[trigger] list@[i].application@)
                    && describes(list@[i], list@[i].application@, self@.applications[list@[i].application@], now,
                    self@.heartbeat_timeout, self@.system.mode)
                &&& forall|name: Seq<char>| #[trigger] self@.applications.contains_key(name) ==> exists|i: int|
                    0 <= i < list@.len() && list@[i].application@ == name
            },
    {
        let entries = self.applications.iter();
        let mut list: Vec<ApplicationSnapshot> = Vec::new();
        let mut k: usize = 0;
        while k < entries.len()
            invariant
                self.wf(),
                k <= entries@.len(),
                forall|j: int| 0 <= j < entries@.len() ==> self@.applications.contains_key(#[trigger] entries@[j].0@)
                    && *entries@[j].1 == self@.applications[entries@[j].0@],
                forall|a: int, b: int|
                    0 <= a < entries@.len() && 0 <= b < entries@.len() && a != b ==> entries@[a].0@ != entries@[b].0@,
                sorted_by_name(list@),
                forall|i: int| 0 <= i < list@.len() ==> exists|j: int| 0 <= j < k
                    && (#[trigger] list@[i]).application@ == entries@[j].0@,
                forall|i: int| 0 <= i < list@.len() ==> self@.applications.contains_key(#[trigger] list@[i].application@)
                    && describes(list@[i], list@[i].application@, self@.applications[list@[i].application@], now,
                    self@.heartbeat_timeout, self@.system.mode),
                forall|j: int| 0 <= j < k ==> exists|i: int| 0 <= i < list@.len()
                    && list@[i].application@ == (#[trigger] entries@[j].0)@,
            decreases entries@.len() - k,
        {
            let (id, status) = entries[k];
            let synchronized = status.connected && status.current_mode == self.system.mode;
            let base_health = self.health.calculate_application(status, now);
            let snapshot = ApplicationSnapshot {
                application: id.duplicate(),
                health: status.health,
                effective_health: effective_application_health(base_health, synchronized),
                current_mode: status.current_mode,
                connected: status.connected,
                synchronized,
                heartbeat_age: if now >= status.last_heartbeat { now - status.last_heartbeat } else { 0 },
            };
            let ghost before = list@;
            proof {
                assert forall|i: int| 0 <= i < before.len() implies (#[trigger] before[i]).application@ != snapshot.application@ by {
                    let j = choose|j: int| 0 <= j < k && before[i].application@ == entries@[j].0@;
                }
            }
            insert_sorted(&mut list, snapshot);
            proof {
                assert forall|i: int| 0 <= i < list@.len() implies exists|j: int| 0 <= j < k + 1
                    && (#[trigger] list@[i]).application@ == entries@[j].0@ by {
                    if list@[i] != snapshot {
                        let j0 = choose|j0: int| 0 <= j0 < before.len() && list@[i] == before[j0];
                        let j = choose|j: int| 0 <= j < k && (before[j0]).application@ == entries@[j].0@;
                    } else {
                        assert(list@[i].application@ == entries@[k as int].0@);
                    }
                }
                assert forall|i: int| 0 <= i < list@.len() implies self@.applications.contains_key(#[trigger] list@[i].application@)
                    && describes(list@[i], list@[i].application@, self@.applications[list@[i].application@], now,
                    self@.heartbeat_timeout, self@.system.mode) by {
                    if list@[i] != snapshot {
                        let j0 = choose|j0: int| 0 <= j0 < before.len() && list@[i] == before[j0];
                    }
                }
                assert forall|j: int| 0 <= j < k + 1 implies exists|i: int| 0 <= i < list@.len()
                    && list@[i].application@ == (#[trigger] entries@[j].0)@ by {
                    if j < k {
                        let i0 = choose|i0: int| 0 <= i0 < before.len() && before[i0].application@ == entries@[j].0@;
                        let i = choose|i: int| 0 <= i < list@.len() && list@[i] == before[i0];
                    } else {
                        let i = choose|i: int| 0 <= i < list@.len() && list@[i] == snapshot;
                    }
                }
            }
            k = k + 1;
        }
        proof {
            assert forall|name: Seq<char>| #[trigger] self@.applications.contains_key(name) implies exists|i: int|
                0 <= i < list@.len() && list@[i].application@ == name by {
                let j = choose|j: int| 0 <= j < entries@.len() && entries@[j].0@ == name;
                assert(exists|i: int| 0 <= i < list@.len() && list@[i].application@ == (#[trigger] entries@[j].0)@);
            }
        }
        Ok(list)
    }
}

/// Whether `message` is an answer to a mode transition that the mode
/// manager refuses only because it came too late.
pub open spec fn late_response(modes: ModeModel, registered: Seq<char>, message: ApplicationToSam) -> bool {
    match message {
        ApplicationToSam::ModeReady { transition_id, .. } => ready_step(modes, registered, transition_id).1 matches Err(
            e,
        ) && is_late(e),
        ApplicationToSam::ModeRejected { transition_id, reason, .. } => rejected_step(
            modes,
            registered,
            transition_id,
            reason@,
        ).1 matches Err(e) && is_late(e),
        ApplicationToSam::ModeCommitted { transition_id, mode, .. } => committed_step(
            modes,
            registered,
            transition_id,
            mode,
        ).1 matches Err(e) && is_late(e),
        _ => false,
    }
}

/// A message that the service refuses leaves the service as it was (and,
/// being refused, sends nothing).
pub proof fn law_refused_messages_change_nothing(
    s: ServiceModel,
    registered: Seq<char>,
    connection: ConnectionId,
    message: ApplicationToSam,
    now: u64,
)
    ensures
        handle_step(s, registered, connection, message, now).1 is Err ==> handle_step(
            s,
            registered,
            connection,
            message,
            now,
        ).0 == s,
{
}

/// Only the current connection of an application is heard: a message on a
/// replaced or closed connection is refused as stale and changes nothing.
pub proof fn law_stale_connections_are_not_heard(
    s: ServiceModel,
    registered: Seq<char>,
    connection: ConnectionId,
    message: ApplicationToSam,
    now: u64,
)
    requires
        !(s.connections.contains_key(registered) && s.connections[registered] == connection),
    ensures
        handle_step(s, registered, connection, message, now) == (s, Err::<Option<SamToApplication>, ServiceErrorView>(
            ServiceErrorView::StaleConnection(registered),
        )),
{
}

/// A connection speaks only for the application it registered as: a
/// message that names another application is refused and changes nothing.
pub proof fn law_no_impersonation(
    s: ServiceModel,
    registered: Seq<char>,
    connection: ConnectionId,
    message: ApplicationToSam,
    now: u64,
)
    requires
        message.sender() != registered,
    ensures
        handle_step(s, registered, connection, message, now).0 == s,
        handle_step(s, registered, connection, message, now).1 is Err,
{
}

/// A response that arrives too late for its transition (which is over,
/// was superseded, or no longer awaits the application) is accepted and
/// ignored: nothing changes and nothing is sent.
pub proof fn law_late_responses_are_ignored(
    s: ServiceModel,
    registered: Seq<char>,
    connection: ConnectionId,
    message: ApplicationToSam,
    now: u64,
)
    requires
        s.connections.contains_key(registered),
        s.connections[registered] == connection,
        message.sender() == registered,
        late_response(s.modes, registered, message),
    ensures
        handle_step(s, registered, connection, message, now) == (s, Ok::<Option<SamToApplication>, ServiceErrorView>(
            None,
        )),
{
}

/// A change of the system state is always announced: handling a message
/// that changes it broadcasts the new state.
pub proof fn law_system_changes_are_announced(
    s: ServiceModel,
    registered: Seq<char>,
    connection: ConnectionId,
    message: ApplicationToSam,
    now: u64,
)
    ensures
        handle_step(s, registered, connection, message, now).0.system != s.system ==> handle_step(
            s,
            registered,
            connection,
            message,
            now,
        ).1 == Ok::<Option<SamToApplication>, ServiceErrorView>(
            Some(state_broadcast(handle_step(s, registered, connection, message, now).0.system)),
        ),
{
}

/// SAM sends `CommitMode` only once every participant is ready: a message
/// whose handling broadcasts `CommitMode` is the ready answer of the last
/// participant still awaited, for the transition under way and its target.
pub proof fn law_commit_only_after_unanimous_readiness(
    s: ServiceModel,
    registered: Seq<char>,
    connection: ConnectionId,
    message: ApplicationToSam,
    now: u64,
)
    ensures
        ({
            let (post, outcome) = handle_step(s, registered, connection, message, now);
            outcome matches Ok(Some(SamToApplication::CommitMode { transition_id: id, mode })) ==> {
                &&& message matches ApplicationToSam::ModeReady { transition_id, .. } && transition_id == id
                &&& s.modes.phase matches ModePhase::Preparing { transition_id, target_mode, waiting_for, .. }
                    && transition_id == id && target_mode == mode && waiting_for.remove(registered)
                    == Set::<Seq<char>>::empty() && waiting_for.contains(registered)
                &&& post.modes.phase is Committing
            }
        }),
{
}

/// Losing an application's current connection fails the system at once:
/// the application stays registered as disconnected, system health is
/// `Failed`, and the new state is announced to the applications still
/// connected.
pub proof fn law_lost_connection_fails_the_system(s: ServiceModel, name: Seq<char>, connection: ConnectionId, now: u64)
    requires
        s.connections.contains_key(name),
        s.connections[name] == connection,
    ensures
        ({
            let (post, sent) = disconnect_step(s, name, connection, now);
            &&& !post.connections.contains_key(name)
            &&& post.applications.contains_key(name) && !post.applications[name].connected
            &&& post.system.health == HealthState::Failed
            &&& sent == Some(state_broadcast(post.system))
        }),
{
    let post = disconnect_step(s, name, connection, now).0;
    assert(post.applications.contains_key(name) && application_fails(post.applications[name], now, s.heartbeat_timeout));
}

/// The end of a connection that was already replaced by a newer one of the
/// same application changes nothing and sends nothing: an old session
/// cannot remove its replacement.
pub proof fn law_stale_disconnect_changes_nothing(s: ServiceModel, name: Seq<char>, connection: ConnectionId, now: u64)
    requires
        !(s.connections.contains_key(name) && s.connections[name] == connection),
    ensures
        disconnect_step(s, name, connection, now) == (s, None::<SamToApplication>),
{
}

/// An application whose heartbeat has expired fails the system at the
/// next health refresh, even with no new message; if the system was not
/// already failed, the failure is announced.
pub proof fn law_expired_heartbeat_fails_the_system(s: ServiceModel, name: Seq<char>, now: u64)
    requires
        s.applications.contains_key(name),
        elapsed(now, s.applications[name].last_heartbeat) > s.heartbeat_timeout,
    ensures
        health_refreshed(s, now).0.system.health == HealthState::Failed,
        s.system.health != HealthState::Failed ==> health_refreshed(s, now).1 == Some(
            state_broadcast(health_refreshed(s, now).0.system),
        ),
{
    assert(application_fails(s.applications[name], now, s.heartbeat_timeout));
}

/// Until a connected application reports the system mode, it is shown as
/// not synchronized with an effective health of at least `Degraded`, and
/// the system is not `Healthy`.
pub proof fn law_unsynchronized_application_is_not_healthy(
    applications: Map<Seq<char>, ApplicationStatus>,
    name: Seq<char>,
    now: u64,
    timeout: u64,
    mode: SystemMode,
)
    requires
        applications.contains_key(name),
        applications[name].connected,
        applications[name].current_mode != mode,
    ensures
        system_health(applications, now, timeout, mode) != HealthState::Healthy,
        effective_health(application_health(applications[name], now, timeout), false) != HealthState::Healthy,
{
    assert(mode_mismatch(applications, mode));
}

/// `s` after registering `name` at `now` and making the new connection
/// current.
pub open spec fn registered_and_connected(s: ServiceModel, name: Seq<char>, now: u64) -> ServiceModel {
    let (registered, id, _) = register_step(s, name, now);
    ServiceModel { connections: registered.connections.insert(name, id), ..registered }
}

/// Whether every current connection was numbered before the counter.
pub open spec fn connection_ids_below_counter(s: ServiceModel) -> bool {
    forall|name: Seq<char>| #[trigger] s.connections.contains_key(name) ==> s.connections[name].number()
        < s.next_connection_id
}

/// Connection numbers are issued afresh: until the counter runs out, every
/// current connection keeps a number below the counter, through
/// registrations, messages and disconnects.
pub proof fn law_connection_ids_stay_below_the_counter(
    s: ServiceModel,
    name: Seq<char>,
    connection: ConnectionId,
    message: ApplicationToSam,
    now: u64,
)
    requires
        connection_ids_below_counter(s),
        s.next_connection_id < u64::MAX,
    ensures
        connection_ids_below_counter(registered_and_connected(s, name, now)),
        connection_ids_below_counter(handle_step(s, name, connection, message, now).0),
        connection_ids_below_counter(disconnect_step(s, name, connection, now).0),
        connection_ids_below_counter(health_refreshed(s, now).0),
{
    let post = registered_and_connected(s, name, now);
    assert forall|n: Seq<char>| #[trigger] post.connections.contains_key(n) implies post.connections[n].number()
        < post.next_connection_id by {
        if n != name {
            assert(s.connections.contains_key(n));
        }
    }
}

/// A new connection of an application silences every earlier one: once
/// `name` has registered again, a message or a disconnect on a connection
/// numbered before the registration is refused as stale and changes
/// nothing.
pub proof fn law_earlier_connections_are_stale_after_registration(
    s: ServiceModel,
    name: Seq<char>,
    earlier: u64,
    message: ApplicationToSam,
    now: u64,
    later: u64,
)
    requires
        earlier < s.next_connection_id,
    ensures
        ({
            let post = registered_and_connected(s, name, now);
            &&& handle_step(post, name, ConnectionId::numbered(earlier), message, later) == (
                post,
                Err::<Option<SamToApplication>, ServiceErrorView>(ServiceErrorView::StaleConnection(name)),
            )
            &&& disconnect_step(post, name, ConnectionId::numbered(earlier), later) == (post, None::<SamToApplication>)
        }),
{
    let post = registered_and_connected(s, name, now);
    assert(post.connections[name] == ConnectionId::numbered(s.next_connection_id));
    assert(ConnectionId::numbered(earlier) != ConnectionId::numbered(s.next_connection_id));
}

/// A rejection of the transition under preparation by any of its
/// participants, whether still awaited or already ready, received on the
/// participant's current connection, aborts the transition: the system
/// stays in the mode the transition started from, and `AbortMode` is sent
/// to every connected application.
pub proof fn law_rejection_by_any_participant_aborts(
    s: ServiceModel,
    application: ApplicationId,
    connection: ConnectionId,
    reason: String,
    now: u64,
)
    requires
        s.connections.contains_key(application@),
        s.connections[application@] == connection,
        s.modes.phase matches ModePhase::Preparing { waiting_for, ready, .. } && (waiting_for.contains(application@)
            || ready.contains(application@)),
    ensures
        ({
            let id = s.modes.phase->Preparing_transition_id;
            let message = ApplicationToSam::ModeRejected { application, transition_id: id, reason };
            let (post, outcome) = handle_step(s, application@, connection, message, now);
            &&& outcome == Ok::<Option<SamToApplication>, ServiceErrorView>(
                Some(SamToApplication::AbortMode { transition_id: id }),
            )
            &&& post.modes.phase == (ModePhase::Stable { mode: s.modes.phase->Preparing_current_mode })
            &&& post.system == s.system
            &&& post.connections == s.connections
        }),
{
}

/// An accepted heartbeat records exactly what it reports: the
/// application's entry then has the reported health and mode, the
/// heartbeat's time, and is connected; every other entry, the mode, the
/// transition and the connections are unchanged; and the system is at
/// least as unhealthy as the health reported.
pub proof fn law_heartbeat_records_the_report(
    s: ServiceModel,
    application: ApplicationId,
    connection: ConnectionId,
    health: HealthState,
    mode: SystemMode,
    now: u64,
)
    requires
        s.connections.contains_key(application@),
        s.connections[application@] == connection,
    ensures
        ({
            let name = application@;
            let message = ApplicationToSam::Heartbeat { application, health, current_mode: mode };
            let (post, outcome) = handle_step(s, name, connection, message, now);
            &&& outcome is Ok
            &&& post.applications.contains_key(name)
            &&& post.applications[name] == (ApplicationStatus {
                current_mode: mode,
                health,
                last_heartbeat: now,
                connected: true,
            })
            &&& forall|other: Seq<char>| other != name ==> (#[trigger] post.applications.contains_key(other)
                == s.applications.contains_key(other)) && (s.applications.contains_key(other)
                ==> post.applications[other] == s.applications[other])
            &&& post.system.mode == s.system.mode
            &&& post.modes == s.modes
            &&& post.connections == s.connections
            &&& severity(post.system.health) >= severity(health)
        }),
{
    let name = application@;
    let message = ApplicationToSam::Heartbeat { application, health, current_mode: mode };
    let post = handle_step(s, name, connection, message, now).0;
    law_system_health_never_better_than_any_application(post.applications, now, s.heartbeat_timeout, s.system.mode);
    assert(post.applications.contains_key(name));
}

/// System health is never better than the health of any registered
/// application, neither than the health SAM judges for it nor than the
/// health it reports: an application that fails or reports `Failed` fails
/// the system, and one that reports `Degraded` keeps the system from being
/// `Healthy`.
pub proof fn law_system_health_never_better_than_any_application(
    applications: Map<Seq<char>, ApplicationStatus>,
    now: u64,
    timeout: u64,
    mode: SystemMode,
)
    ensures
        forall|name: Seq<char>| #[trigger] applications.contains_key(name) ==> {
            &&& severity(application_health(applications[name], now, timeout)) <= severity(
                system_health(applications, now, timeout, mode),
            )
            &&& severity(applications[name].health) <= severity(system_health(applications, now, timeout, mode))
        },
{
    assert forall|name: Seq<char>| #[trigger] applications.contains_key(name) implies {
        &&& severity(application_health(applications[name], now, timeout)) <= severity(
            system_health(applications, now, timeout, mode),
        )
        &&& severity(applications[name].health) <= severity(system_health(applications, now, timeout, mode))
    } by {
        if application_fails(applications[name], now, timeout) {
            assert(aggregate_health(applications, now, timeout) == HealthState::Failed);
        } else if applications[name].health == HealthState::Degraded {
            assert(aggregate_health(applications, now, timeout) != HealthState::Healthy);
        }
    }
}

/// An application's effective health is never better than the health SAM
/// judges for it, and an application out of step with the system mode is
/// never shown as `Healthy`.
pub proof fn law_effective_health_never_better(base: HealthState, synchronized: bool)
    ensures
        severity(effective_health(base, synchronized)) >= severity(base),
        !synchronized ==> effective_health(base, synchronized) != HealthState::Healthy,
{
}

/// In a listing, an application's effective health is never better than
/// the health it reports nor than the health SAM judges for it: a
/// synchronized application that reports `Degraded` is shown `Degraded`.
pub proof fn law_listed_health_never_better_than_reported(
    snapshot: ApplicationSnapshot,
    name: Seq<char>,
    status: ApplicationStatus,
    now: u64,
    timeout: u64,
    mode: SystemMode,
)
    requires
        describes(snapshot, name, status, now, timeout, mode),
    ensures
        severity(snapshot.effective_health) >= severity(status.health),
        severity(snapshot.effective_health) >= severity(application_health(status, now, timeout)),
        snapshot.health == status.health,
{
}

/// Registering starts an application afresh, whatever it had before: its
/// entry becomes `Startup`, `Healthy`, connected, with `now` as its last
/// heartbeat; every other entry is unchanged; system health is recomputed
/// over the result; and the reply carries the protocol version and the
/// resulting system mode and health.
pub proof fn law_registration_starts_afresh(s: ServiceModel, name: Seq<char>, now: u64)
    ensures
        ({
            let (post, id, reply) = register_step(s, name, now);
            &&& post.applications.contains_key(name)
            &&& post.applications[name] == (ApplicationStatus {
                current_mode: SystemMode::Startup,
                health: HealthState::Healthy,
                last_heartbeat: now,
                connected: true,
            })
            &&& forall|other: Seq<char>| other != name ==> (#[trigger] post.applications.contains_key(other)
                == s.applications.contains_key(other)) && (s.applications.contains_key(other)
                ==> post.applications[other] == s.applications[other])
            &&& post.system.mode == s.system.mode
            &&& post.system.health == system_health(post.applications, now, s.heartbeat_timeout, s.system.mode)
            &&& reply == (SamToApplication::RegisterAccepted {
                protocol_version: PROTOCOL_VERSION,
                current_mode: post.system.mode,
                system_health: post.system.health,
            })
        }),
{
}

/// A reconnecting application is not held to its old status: registering
/// after its connection was lost gives it the same entry, and the same
/// view of the other applications, as registering without the loss.
pub proof fn law_reconnection_forgets_the_lost_connection(
    s: ServiceModel,
    name: Seq<char>,
    connection: ConnectionId,
    lost_at: u64,
    now: u64,
)
    ensures
        register_step(disconnect_step(s, name, connection, lost_at).0, name, now).0.applications
            == register_step(s, name, now).0.applications,
{
    let a = register_step(disconnect_step(s, name, connection, lost_at).0, name, now).0.applications;
    let b = register_step(s, name, now).0.applications;
    assert(a =~= b);
}

} // verus!

//! The decisions an application runtime makes on SAM's messages: whether a
//! registration succeeded, what each message during a session asks of the
//! application, how the application answers, and which failures are worth
//! reconnecting after.

use vstd::prelude::*;
use vstd::std_specs::convert::FromSpecImpl;

use crate::messages::{debug_sam_message, push_debug_sam_message, ApplicationToSam, SamToApplication};
use crate::text::{decimal_text, push_decimal, IntoOwnedString};
use crate::transport::{transport_error_text, LocalEndpoint, TransportError};
use crate::types::{ApplicationId, HealthState, SystemMode, TransitionId, PROTOCOL_VERSION};

verus! {

/// How an application runtime reaches SAM and paces itself. Durations are
/// in milliseconds.
#[derive(Debug, Clone)]
pub struct RuntimeConfig {
    pub endpoint: LocalEndpoint,
    /// Time between two heartbeats.
    pub heartbeat_interval: u64,
    /// Time to wait before reconnecting after a session ended.
    pub reconnect_delay: u64,
    /// Time to wait for SAM's answer to `Register`.
    pub registration_timeout: u64,
}

impl Default for RuntimeConfig {
    /// SAM's default endpoint, a heartbeat every half second, a reconnect
    /// after one second, and five seconds to register.
    fn default() -> (config: Self)
        ensures
            config.endpoint@ == "/tmp/sam.sock"@,
            config.heartbeat_interval == 500,
            config.reconnect_delay == 1000,
            config.registration_timeout == 5000,
    {
        RuntimeConfig {
            endpoint: LocalEndpoint::default(),
            heartbeat_interval: 500,
            reconnect_delay: 1000,
            registration_timeout: 5000,
        }
    }
}

/// Keeps one application connected to SAM with a given configuration; the
/// sessions themselves are run by the caller, with the decisions below.
pub struct ApplicationRuntime {
    application: ApplicationId,
    config: RuntimeConfig,
}

impl ApplicationRuntime {
    /// The application the runtime speaks for.
    pub closed spec fn spec_application(&self) -> Seq<char> {
        self.application@
    }

    /// The configuration the runtime runs with.
    pub closed spec fn spec_config(&self) -> RuntimeConfig {
        self.config
    }

    pub fn new<T: IntoOwnedString>(application: T, config: RuntimeConfig) -> (runtime: Self)
        ensures
            runtime.spec_application() == application.text_view(),
            runtime.spec_config() == config,
    {
        ApplicationRuntime { application: ApplicationId::new(application), config }
    }

    pub fn application(&self) -> (application: &ApplicationId)
        ensures
            application@ == self.spec_application(),
    {
        &self.application
    }

    pub fn config(&self) -> (config: &RuntimeConfig)
        ensures
            *config == self.spec_config(),
    {
        &self.config
    }
}

/// Why an application's session with SAM ended.
#[derive(Debug)]
pub enum RuntimeError {
    Transport(TransportError),
    RegistrationTimeout,
    RegistrationRejected { supported_version: u16, reason: String },
    ProtocolVersionMismatch { received: u16, supported: u16 },
    UnexpectedRegistrationResponse(SamToApplication),
    ConnectionClosed,
    CommitFailed(String),
}

impl From<TransportError> for RuntimeError {
    fn from(error: TransportError) -> (converted: Self) {
        RuntimeError::Transport(error)
    }
}

impl FromSpecImpl<TransportError> for RuntimeError {
    open spec fn obeys_from_spec() -> bool {
        true
    }

    open spec fn from_spec(v: TransportError) -> Self {
        RuntimeError::Transport(v)
    }
}

/// The description of a runtime error other than a transport failure,
/// whose description is the transport error's own.
pub open spec fn runtime_error_text(error: RuntimeError) -> Seq<char> {
    match error {
        RuntimeError::Transport(e) => transport_error_text(e),
        RuntimeError::RegistrationTimeout => "registration timed out"@,
        RuntimeError::RegistrationRejected { supported_version, reason } => "SAM rejected protocol version "@
            + decimal_text(supported_version as nat) + ": "@ + reason@,
        RuntimeError::ProtocolVersionMismatch { received, supported } =>
            "SAM accepted registration with protocol version "@ + decimal_text(received as nat)
            + "; client supports "@ + decimal_text(supported as nat),
        RuntimeError::UnexpectedRegistrationResponse(message) => "expected registration response, received "@
            + debug_sam_message(message),
        RuntimeError::ConnectionClosed => "SAM connection closed"@,
        RuntimeError::CommitFailed(reason) => "application failed to commit mode: "@ + reason@,
    }
}

impl RuntimeError {
    /// The human-readable description of the error. A transport failure
    /// is described as the transport error describes itself.
    pub fn to_string(&self) -> (text: String)
        ensures
            match self {
                RuntimeError::Transport(TransportError::Io(_)) | RuntimeError::Transport(
                    TransportError::Serialization(_),
                ) => runtime_error_text(*self).is_prefix_of(text@),
                _ => text@ == runtime_error_text(*self),
            },
    {
        match self {
            RuntimeError::Transport(error) => error.to_string(),
            RuntimeError::RegistrationTimeout => String::from_str("registration timed out"),
            RuntimeError::RegistrationRejected { supported_version, reason } => {
                let mut text = String::from_str("SAM rejected protocol version ");
                push_decimal(&mut text, *supported_version as u64);
                text.append(": ");
                text.append(reason.as_str());
                assert(text@ =~= runtime_error_text(*self));
                text
            },
            RuntimeError::ProtocolVersionMismatch { received, supported } => {
                let mut text = String::from_str("SAM accepted registration with protocol version ");
                push_decimal(&mut text, *received as u64);
                text.append("; client supports ");
                push_decimal(&mut text, *supported as u64);
                assert(text@ =~= runtime_error_text(*self));
                text
            },
            RuntimeError::UnexpectedRegistrationResponse(message) => {
                let mut text = String::from_str("expected registration response, received ");
                push_debug_sam_message(&mut text, message);
                text
            },
            RuntimeError::ConnectionClosed => String::from_str("SAM connection closed"),
            RuntimeError::CommitFailed(reason) => {
                let mut text = String::from_str("application failed to commit mode: ");
                text.append(reason.as_str());
                text
            },
        }
    }
}

/// What SAM's answer to `Register` means: registration succeeded with
/// the given system mode and health, or the session cannot go on.
pub fn registration_outcome(reply: SamToApplication) -> (outcome: Result<(SystemMode, HealthState), RuntimeError>)
    ensures
        match reply {
            SamToApplication::RegisterAccepted { protocol_version, current_mode, system_health } => if protocol_version
                == PROTOCOL_VERSION {
                outcome == Ok::<(SystemMode, HealthState), RuntimeError>((current_mode, system_health))
            } else {
                outcome matches Err(RuntimeError::ProtocolVersionMismatch { received, supported })
                    && received == protocol_version && supported == PROTOCOL_VERSION
            },
            SamToApplication::RegisterRejected { supported_protocol_version, reason } => outcome matches Err(
                RuntimeError::RegistrationRejected { supported_version, reason: r },
            ) && supported_version == supported_protocol_version && r == reason,
            _ => outcome matches Err(RuntimeError::UnexpectedRegistrationResponse(m)) && m == reply,
        },
{
    match reply {
        SamToApplication::RegisterAccepted { protocol_version, current_mode, system_health } => {
            if protocol_version != PROTOCOL_VERSION {
                return Err(RuntimeError::ProtocolVersionMismatch { received: protocol_version, supported: PROTOCOL_VERSION });
            }
            Ok((current_mode, system_health))
        },
        SamToApplication::RegisterRejected { supported_protocol_version, reason } => Err(
            RuntimeError::RegistrationRejected { supported_version: supported_protocol_version, reason },
        ),
        other => Err(RuntimeError::UnexpectedRegistrationResponse(other)),
    }
}

/// The mode an application has to be brought to right after registering:
/// SAM's authoritative `system_mode` when the application reports another
/// one, none when they already agree. It is applied before the first
/// heartbeat.
pub fn synchronization_target(application_mode: SystemMode, system_mode: SystemMode) -> (target: Option<SystemMode>)
    ensures
        target == if application_mode == system_mode {
            None
        } else {
            Some(system_mode)
        },
{
    if application_mode == system_mode {
        None
    } else {
        Some(system_mode)
    }
}

/// What a message from SAM during a session asks of the application.
#[derive(Debug, Clone, Copy, PartialEq, Eq, Structural)]
pub enum SessionStep {
    /// Decide whether `requested_mode` can be prepared for, and answer.
    Prepare { transition_id: TransitionId, requested_mode: SystemMode },
    /// Apply `mode`, then confirm the commit.
    Commit { transition_id: TransitionId, mode: SystemMode },
    /// The transition was aborted by another participant.
    Abort { transition_id: TransitionId },
    /// SAM announced a new system state.
    StateChanged { mode: SystemMode, health: HealthState },
}

/// The step that `message` asks for; a registration answer in the middle
/// of a session ends it.
pub fn session_step(message: SamToApplication) -> (step: Result<SessionStep, RuntimeError>)
    ensures
        match message {
            SamToApplication::PrepareMode { transition_id, requested_mode } => step
                == Ok::<SessionStep, RuntimeError>(SessionStep::Prepare { transition_id, requested_mode }),
            SamToApplication::CommitMode { transition_id, mode } => step
                == Ok::<SessionStep, RuntimeError>(SessionStep::Commit { transition_id, mode }),
            SamToApplication::AbortMode { transition_id } => step
                == Ok::<SessionStep, RuntimeError>(SessionStep::Abort { transition_id }),
            SamToApplication::StateBroadcast { mode, health } => step
                == Ok::<SessionStep, RuntimeError>(SessionStep::StateChanged { mode, health }),
            _ => step matches Err(RuntimeError::UnexpectedRegistrationResponse(m)) && m == message,
        },
{
    match message {
        SamToApplication::PrepareMode { transition_id, requested_mode } => Ok(SessionStep::Prepare { transition_id, requested_mode }),
        SamToApplication::CommitMode { transition_id, mode } => Ok(SessionStep::Commit { transition_id, mode }),
        SamToApplication::AbortMode { transition_id } => Ok(SessionStep::Abort { transition_id }),
        SamToApplication::StateBroadcast { mode, health } => Ok(SessionStep::StateChanged { mode, health }),
        other => Err(RuntimeError::UnexpectedRegistrationResponse(other)),
    }
}

/// The answer to a prepare request, given the application's decision:
/// `ModeReady` if it can prepare, `ModeRejected` with its reason if not.
pub fn prepare_reply(application: &ApplicationId, transition_id: TransitionId, decision: Result<(), String>) -> (reply: ApplicationToSam)
    ensures
        match decision {
            Ok(()) => reply matches ApplicationToSam::ModeReady { application: a, transition_id: t }
                && a@ == application@ && t == transition_id,
            Err(reason) => reply matches ApplicationToSam::ModeRejected { application: a, transition_id: t, reason: r }
                && a@ == application@ && t == transition_id && r == reason,
        },
{
    match decision {
        Ok(()) => ApplicationToSam::mode_ready(application, transition_id),
        Err(reason) => ApplicationToSam::mode_rejected(application, transition_id, reason),
    }
}

/// The answer to a commit request, given whether the application applied
/// the mode: `ModeCommitted`, or the end of the session with
/// `CommitFailed`, since an application that cannot apply a mode it said
/// it was ready for has no well-defined state to go on from.
pub fn commit_reply(
    application: &ApplicationId,
    transition_id: TransitionId,
    mode: SystemMode,
    outcome: Result<(), String>,
) -> (reply: Result<ApplicationToSam, RuntimeError>)
    ensures
        match outcome {
            Ok(()) => reply matches Ok(ApplicationToSam::ModeCommitted { application: a, transition_id: t, mode: m })
                && a@ == application@ && t == transition_id && m == mode,
            Err(reason) => reply matches Err(RuntimeError::CommitFailed(r)) && r == reason,
        },
{
    match outcome {
        Ok(()) => Ok(ApplicationToSam::mode_committed(application, transition_id, mode)),
        Err(reason) => Err(RuntimeError::CommitFailed(reason)),
    }
}

/// Whether `error` shows a lasting incompatibility with SAM, after which
/// reconnecting cannot help: a rejected registration or a protocol
/// version mismatch. Every other failure is followed by a reconnect.
pub fn is_permanent(error: &RuntimeError) -> (permanent: bool)
    ensures
        permanent == (error is RegistrationRejected || error is ProtocolVersionMismatch),
{
    match error {
        RuntimeError::RegistrationRejected { .. } | RuntimeError::ProtocolVersionMismatch { .. } => true,
        _ => false,
    }
}

} // verus!

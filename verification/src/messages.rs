//! The messages exchanged between SAM and applications.
//!
//! The wire encoding gives each variant its declaration index, so the
//! variant order below is part of the protocol: new variants go at the end.

use vstd::prelude::*;

use crate::text::{debug_quoted, decimal_text, push_decimal, quoted};
use crate::types::{ApplicationId, HealthState, SystemMode, TransitionId, PROTOCOL_VERSION};

verus! {

/// Messages an application is allowed to send to SAM.
///
/// `Register`/`Heartbeat` keep SAM aware of an application's liveness and
/// health, while `ModeReady`, `ModeRejected` and `ModeCommitted` answer a
/// `PrepareMode` or `CommitMode` request of the two-phase transition
/// protocol run by `ModeManager`.
#[derive(Debug, Clone, PartialEq, Eq)]
pub enum ApplicationToSam {
    Register {
        application: ApplicationId,
        /// The `PROTOCOL_VERSION` the application was built against.
        protocol_version: u16,
    },
    Heartbeat {
        application: ApplicationId,
        health: HealthState,
        current_mode: SystemMode,
    },
    ModeReady {
        application: ApplicationId,
        transition_id: TransitionId,
    },
    ModeRejected {
        application: ApplicationId,
        transition_id: TransitionId,
        reason: String,
    },
    ModeCommitted {
        application: ApplicationId,
        transition_id: TransitionId,
        mode: SystemMode,
    },
}

/// Messages that SAM sends to applications.
///
/// `PrepareMode` begins a transition (answered by `ModeReady` or
/// `ModeRejected`), `CommitMode` finalizes it once every application is
/// ready (answered by `ModeCommitted`), and `AbortMode` cancels a transition
/// that a participant rejected.
#[derive(Debug, Clone, PartialEq, Eq)]
pub enum SamToApplication {
    RegisterAccepted {
        /// The `PROTOCOL_VERSION` SAM itself runs, echoed back so that the
        /// application can detect a mismatch with its own version.
        protocol_version: u16,
        current_mode: SystemMode,
        system_health: HealthState,
    },
    PrepareMode {
        transition_id: TransitionId,
        requested_mode: SystemMode,
    },
    CommitMode {
        transition_id: TransitionId,
        mode: SystemMode,
    },
    AbortMode {
        transition_id: TransitionId,
    },
    StateBroadcast {
        mode: SystemMode,
        health: HealthState,
    },
    /// Kept last so that the earlier variants keep their wire indices.
    RegisterRejected {
        supported_protocol_version: u16,
        reason: String,
    },
}

impl ApplicationToSam {
    /// The application whose identity the message carries.
    pub open spec fn sender(self) -> Seq<char> {
        match self {
            ApplicationToSam::Register { application, .. } => application@,
            ApplicationToSam::Heartbeat { application, .. } => application@,
            ApplicationToSam::ModeReady { application, .. } => application@,
            ApplicationToSam::ModeRejected { application, .. } => application@,
            ApplicationToSam::ModeCommitted { application, .. } => application@,
        }
    }

    /// The `Register` message for `application`, stamped with this build's
    /// protocol version.
    pub fn register(application: &ApplicationId) -> (message: Self)
        ensures
            message matches ApplicationToSam::Register { application: a, protocol_version }
                && a@ == application@ && protocol_version == PROTOCOL_VERSION,
    {
        ApplicationToSam::Register { application: application.duplicate(), protocol_version: PROTOCOL_VERSION }
    }

    pub fn heartbeat(application: &ApplicationId, health: HealthState, current_mode: SystemMode) -> (message: Self)
        ensures
            message matches ApplicationToSam::Heartbeat { application: a, health: h, current_mode: m }
                && a@ == application@ && h == health && m == current_mode,
    {
        ApplicationToSam::Heartbeat { application: application.duplicate(), health, current_mode }
    }

    pub fn mode_ready(application: &ApplicationId, transition_id: TransitionId) -> (message: Self)
        ensures
            message matches ApplicationToSam::ModeReady { application: a, transition_id: t }
                && a@ == application@ && t == transition_id,
    {
        ApplicationToSam::ModeReady { application: application.duplicate(), transition_id }
    }

    pub fn mode_rejected(application: &ApplicationId, transition_id: TransitionId, reason: String) -> (message: Self)
        ensures
            message matches ApplicationToSam::ModeRejected { application: a, transition_id: t, reason: r }
                && a@ == application@ && t == transition_id && r == reason,
    {
        ApplicationToSam::ModeRejected { application: application.duplicate(), transition_id, reason }
    }

    pub fn mode_committed(application: &ApplicationId, transition_id: TransitionId, mode: SystemMode) -> (message: Self)
        ensures
            message matches ApplicationToSam::ModeCommitted { application: a, transition_id: t, mode: m }
                && a@ == application@ && t == transition_id && m == mode,
    {
        ApplicationToSam::ModeCommitted { application: application.duplicate(), transition_id, mode }
    }
}

impl SamToApplication {
    /// A second message equal to this one.
    pub fn duplicate(&self) -> (copy: Self)
        ensures
            copy == *self,
    {
        match self {
            SamToApplication::RegisterAccepted { protocol_version, current_mode, system_health } =>
                SamToApplication::RegisterAccepted {
                protocol_version: *protocol_version,
                current_mode: *current_mode,
                system_health: *system_health,
            },
            SamToApplication::PrepareMode { transition_id, requested_mode } => SamToApplication::PrepareMode {
                transition_id: *transition_id,
                requested_mode: *requested_mode,
            },
            SamToApplication::CommitMode { transition_id, mode } => SamToApplication::CommitMode {
                transition_id: *transition_id,
                mode: *mode,
            },
            SamToApplication::AbortMode { transition_id } => SamToApplication::AbortMode {
                transition_id: *transition_id,
            },
            SamToApplication::StateBroadcast { mode, health } => SamToApplication::StateBroadcast {
                mode: *mode,
                health: *health,
            },
            SamToApplication::RegisterRejected { supported_protocol_version, reason } =>
                SamToApplication::RegisterRejected {
                supported_protocol_version: *supported_protocol_version,
                reason: reason.clone(),
            },
        }
    }
}

/// The `{:?}` form of a system mode: the variant's name.
pub open spec fn mode_name(mode: SystemMode) -> Seq<char> {
    match mode {
        SystemMode::Startup => "Startup"@,
        SystemMode::Standby => "Standby"@,
        SystemMode::Working => "Working"@,
    }
}

/// The `{:?}` form of a health state: the variant's name.
pub open spec fn health_name(health: HealthState) -> Seq<char> {
    match health {
        HealthState::Healthy => "Healthy"@,
        HealthState::Degraded => "Degraded"@,
        HealthState::Failed => "Failed"@,
    }
}

/// The `{:?}` form of a transition identifier.
pub open spec fn debug_transition(id: TransitionId) -> Seq<char> {
    "TransitionId("@ + decimal_text(id.0 as nat) + ")"@
}

/// The `{:?}` form of a message from SAM.
pub open spec fn debug_sam_message(message: SamToApplication) -> Seq<char> {
    match message {
        SamToApplication::RegisterAccepted { protocol_version, current_mode, system_health } =>
            "RegisterAccepted { protocol_version: "@ + decimal_text(protocol_version as nat) + ", current_mode: "@
            + mode_name(current_mode) + ", system_health: "@ + health_name(system_health) + " }"@,
        SamToApplication::PrepareMode { transition_id, requested_mode } => "PrepareMode { transition_id: "@
            + debug_transition(transition_id) + ", requested_mode: "@ + mode_name(requested_mode) + " }"@,
        SamToApplication::CommitMode { transition_id, mode } => "CommitMode { transition_id: "@
            + debug_transition(transition_id) + ", mode: "@ + mode_name(mode) + " }"@,
        SamToApplication::AbortMode { transition_id } => "AbortMode { transition_id: "@ + debug_transition(
            transition_id,
        ) + " }"@,
        SamToApplication::StateBroadcast { mode, health } => "StateBroadcast { mode: "@ + mode_name(mode)
            + ", health: "@ + health_name(health) + " }"@,
        SamToApplication::RegisterRejected { supported_protocol_version, reason } =>
            "RegisterRejected { supported_protocol_version: "@ + decimal_text(supported_protocol_version as nat)
            + ", reason: "@ + debug_quoted(reason@) + " }"@,
    }
}

/// Appends the name of `mode` to `out`.
pub fn push_mode_name(out: &mut String, mode: SystemMode)
    ensures
        final(out)@ == old(out)@ + mode_name(mode),
{
    match mode {
        SystemMode::Startup => out.append("Startup"),
        SystemMode::Standby => out.append("Standby"),
        SystemMode::Working => out.append("Working"),
    }
}

/// Appends the name of `health` to `out`.
pub fn push_health_name(out: &mut String, health: HealthState)
    ensures
        final(out)@ == old(out)@ + health_name(health),
{
    match health {
        HealthState::Healthy => out.append("Healthy"),
        HealthState::Degraded => out.append("Degraded"),
        HealthState::Failed => out.append("Failed"),
    }
}

/// Appends the `{:?}` form of `id` to `out`.
pub fn push_debug_transition(out: &mut String, id: TransitionId)
    ensures
        final(out)@ == old(out)@ + debug_transition(id),
{
    out.append("TransitionId(");
    push_decimal(out, id.0);
    out.append(")");
    assert(final(out)@ =~= old(out)@ + debug_transition(id));
}

/// Appends the `{:?}` form of `message` to `out`.
pub fn push_debug_sam_message(out: &mut String, message: &SamToApplication)
    ensures
        final(out)@ == old(out)@ + debug_sam_message(*message),
{
    let ghost start = out@;
    match message {
        SamToApplication::RegisterAccepted { protocol_version, current_mode, system_health } => {
            out.append("RegisterAccepted { protocol_version: ");
            push_decimal(out, *protocol_version as u64);
            out.append(", current_mode: ");
            push_mode_name(out, *current_mode);
            out.append(", system_health: ");
            push_health_name(out, *system_health);
            out.append(" }");
        },
        SamToApplication::PrepareMode { transition_id, requested_mode } => {
            out.append("PrepareMode { transition_id: ");
            push_debug_transition(out, *transition_id);
            out.append(", requested_mode: ");
            push_mode_name(out, *requested_mode);
            out.append(" }");
        },
        SamToApplication::CommitMode { transition_id, mode } => {
            out.append("CommitMode { transition_id: ");
            push_debug_transition(out, *transition_id);
            out.append(", mode: ");
            push_mode_name(out, *mode);
            out.append(" }");
        },
        SamToApplication::AbortMode { transition_id } => {
            out.append("AbortMode { transition_id: ");
            push_debug_transition(out, *transition_id);
            out.append(" }");
        },
        SamToApplication::StateBroadcast { mode, health } => {
            out.append("StateBroadcast { mode: ");
            push_mode_name(out, *mode);
            out.append(", health: ");
            push_health_name(out, *health);
            out.append(" }");
        },
        SamToApplication::RegisterRejected { supported_protocol_version, reason } => {
            out.append("RegisterRejected { supported_protocol_version: ");
            push_decimal(out, *supported_protocol_version as u64);
            out.append(", reason: ");
            let text = quoted(reason.as_str());
            out.append(text.as_str());
            out.append(" }");
        },
    }
    assert(out@ =~= start + debug_sam_message(*message));
}

} // verus!

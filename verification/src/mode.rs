//! The two-phase mode transition protocol.
//!
//! A transition moves through two rounds of unanimous consent: `Stable` ->
//! `Preparing` (every participant answers ready or rejected) -> `Committing`
//! (every participant that was ready confirms the commit) -> `Stable` again,
//! in the new mode. One rejection while preparing aborts the transition and
//! the system stays in the mode it was in.

use vstd::prelude::*;
use vstd::string::StringExecFns;

use crate::participants::ApplicationSet;
use crate::types::{ApplicationId, SystemMode, TransitionId};

verus! {

/// Phase of the mode transition state machine.
#[derive(Debug, Clone, PartialEq, Eq)]
pub enum ModeManagerState {
    Stable {
        mode: SystemMode,
    },
    Preparing {
        transition_id: TransitionId,
        current_mode: SystemMode,
        target_mode: SystemMode,
        waiting_for: ApplicationSet,
        ready: ApplicationSet,
    },
    Committing {
        transition_id: TransitionId,
        previous_mode: SystemMode,
        target_mode: SystemMode,
        waiting_for: ApplicationSet,
        committed: ApplicationSet,
    },
}

/// Notable transitions produced by `ModeManager`, to be relayed to the
/// applications.
#[derive(Debug, Clone, PartialEq, Eq)]
pub enum ModeEvent {
    /// Every participant is ready; SAM should now broadcast `CommitMode`.
    PreparationComplete {
        transition_id: TransitionId,
        target_mode: SystemMode,
    },
    /// Every participant has committed; the system is stable in `mode`.
    TransitionComplete {
        transition_id: TransitionId,
        mode: SystemMode,
    },
    /// A participant rejected the transition while preparing; the system
    /// stays in its previous mode.
    TransitionAborted {
        transition_id: TransitionId,
        rejected_by: ApplicationId,
        reason: String,
    },
}

/// Why a request or response was refused.
#[derive(Debug, PartialEq, Eq)]
pub enum ModeError {
    TransitionInProgress,
    AlreadyInMode,
    NoParticipants,
    StaleTransition,
    UnknownParticipant(ApplicationId),
    InvalidPhase,
    WrongCommittedMode,
}

/// The abstract phase: `ModeManagerState` with its sets taken as sets of
/// names.
pub enum ModePhase {
    Stable {
        mode: SystemMode,
    },
    Preparing {
        transition_id: TransitionId,
        current_mode: SystemMode,
        target_mode: SystemMode,
        waiting_for: Set<Seq<char>>,
        ready: Set<Seq<char>>,
    },
    Committing {
        transition_id: TransitionId,
        previous_mode: SystemMode,
        target_mode: SystemMode,
        waiting_for: Set<Seq<char>>,
        committed: Set<Seq<char>>,
    },
}

/// `ModeEvent` with names in place of identifiers and strings.
pub enum ModeEventView {
    PreparationComplete { transition_id: TransitionId, target_mode: SystemMode },
    TransitionComplete { transition_id: TransitionId, mode: SystemMode },
    TransitionAborted { transition_id: TransitionId, rejected_by: Seq<char>, reason: Seq<char> },
}

/// `ModeError` with a name in place of the identifier.
pub enum ModeErrorView {
    TransitionInProgress,
    AlreadyInMode,
    NoParticipants,
    StaleTransition,
    UnknownParticipant(Seq<char>),
    InvalidPhase,
    WrongCommittedMode,
}

/// The abstract state of a `ModeManager`.
pub struct ModeModel {
    pub phase: ModePhase,
    pub next_transition_id: u64,
}

impl View for ModeManagerState {
    type V = ModePhase;

    open spec fn view(&self) -> ModePhase {
        match self {
            ModeManagerState::Stable { mode } => ModePhase::Stable { mode: *mode },
            ModeManagerState::Preparing { transition_id, current_mode, target_mode, waiting_for, ready } =>
                ModePhase::Preparing {
                    transition_id: *transition_id,
                    current_mode: *current_mode,
                    target_mode: *target_mode,
                    waiting_for: waiting_for@,
                    ready: ready@,
                },
            ModeManagerState::Committing { transition_id, previous_mode, target_mode, waiting_for, committed } =>
                ModePhase::Committing {
                    transition_id: *transition_id,
                    previous_mode: *previous_mode,
                    target_mode: *target_mode,
                    waiting_for: waiting_for@,
                    committed: committed@,
                },
        }
    }
}

impl View for ModeEvent {
    type V = ModeEventView;

    open spec fn view(&self) -> ModeEventView {
        match self {
            ModeEvent::PreparationComplete { transition_id, target_mode } =>
                ModeEventView::PreparationComplete { transition_id: *transition_id, target_mode: *target_mode },
            ModeEvent::TransitionComplete { transition_id, mode } =>
                ModeEventView::TransitionComplete { transition_id: *transition_id, mode: *mode },
            ModeEvent::TransitionAborted { transition_id, rejected_by, reason } =>
                ModeEventView::TransitionAborted {
                    transition_id: *transition_id,
                    rejected_by: rejected_by@,
                    reason: reason@,
                },
        }
    }
}

impl View for ModeError {
    type V = ModeErrorView;

    open spec fn view(&self) -> ModeErrorView {
        match self {
            ModeError::TransitionInProgress => ModeErrorView::TransitionInProgress,
            ModeError::AlreadyInMode => ModeErrorView::AlreadyInMode,
            ModeError::NoParticipants => ModeErrorView::NoParticipants,
            ModeError::StaleTransition => ModeErrorView::StaleTransition,
            ModeError::UnknownParticipant(a) => ModeErrorView::UnknownParticipant(a@),
            ModeError::InvalidPhase => ModeErrorView::InvalidPhase,
            ModeError::WrongCommittedMode => ModeErrorView::WrongCommittedMode,
        }
    }
}

/// The description of a mode error.
pub open spec fn mode_error_text(error: ModeErrorView) -> Seq<char> {
    match error {
        ModeErrorView::TransitionInProgress => "a mode transition is already in progress"@,
        ModeErrorView::AlreadyInMode => "target mode is already active"@,
        ModeErrorView::NoParticipants => "no applications are available to approve the transition"@,
        ModeErrorView::StaleTransition => "response does not match the active transition"@,
        ModeErrorView::UnknownParticipant(name) => "application is not participating in this transition: "@
            + crate::text::debug_application(name),
        ModeErrorView::InvalidPhase => "response is invalid during the current transition phase"@,
        ModeErrorView::WrongCommittedMode => "committed mode does not match the requested mode"@,
    }
}

impl ModeError {
    /// The human-readable description of the error.
    pub fn to_string(&self) -> (text: String)
        ensures
            text@ == mode_error_text(self@),
    {
        proof {
            reveal_strlit("a mode transition is already in progress");
            reveal_strlit("target mode is already active");
            reveal_strlit("no applications are available to approve the transition");
            reveal_strlit("response does not match the active transition");
            reveal_strlit("application is not participating in this transition: ");
            reveal_strlit("response is invalid during the current transition phase");
            reveal_strlit("committed mode does not match the requested mode");
        }
        match self {
            ModeError::TransitionInProgress => String::from_str("a mode transition is already in progress"),
            ModeError::AlreadyInMode => String::from_str("target mode is already active"),
            ModeError::NoParticipants => String::from_str("no applications are available to approve the transition"),
            ModeError::StaleTransition => String::from_str("response does not match the active transition"),
            ModeError::UnknownParticipant(application) => {
                let mut text = String::from_str("application is not participating in this transition: ");
                crate::text::push_debug_application(&mut text, application);
                text
            },
            ModeError::InvalidPhase => String::from_str("response is invalid during the current transition phase"),
            ModeError::WrongCommittedMode => String::from_str("committed mode does not match the requested mode"),
        }
    }
}

/// The mode the system is in during `phase`: while a transition is under
/// way this is still the mode it started from.
pub open spec fn phase_mode(phase: ModePhase) -> SystemMode {
    match phase {
        ModePhase::Stable { mode } => mode,
        ModePhase::Preparing { current_mode, .. } => current_mode,
        ModePhase::Committing { previous_mode, .. } => previous_mode,
    }
}

/// The invariant of the protocol: a transition under way is still waiting
/// for someone, nobody is both awaited and done, and the target differs
/// from the mode the transition started from.
pub open spec fn phase_wf(phase: ModePhase) -> bool {
    match phase {
        ModePhase::Stable { .. } => true,
        ModePhase::Preparing { current_mode, target_mode, waiting_for, ready, .. } => {
            &&& waiting_for != Set::<Seq<char>>::empty()
            &&& waiting_for.disjoint(ready)
            &&& current_mode != target_mode
        },
        ModePhase::Committing { previous_mode, target_mode, waiting_for, committed, .. } => {
            &&& waiting_for != Set::<Seq<char>>::empty()
            &&& waiting_for.disjoint(committed)
            &&& previous_mode != target_mode
        },
    }
}

/// The identifier that follows `id`, wrapping at the end of the range.
pub open spec fn following_id(id: u64) -> u64 {
    if id == u64::MAX {
        0
    } else {
        (id + 1) as u64
    }
}

/// Starting a transition to `target` with `participants`.
pub open spec fn request_step(m: ModeModel, target: SystemMode, participants: Set<Seq<char>>) -> (
    ModeModel,
    Result<TransitionId, ModeErrorView>,
) {
    match m.phase {
        ModePhase::Stable { mode } => {
            if mode == target {
                (m, Err(ModeErrorView::AlreadyInMode))
            } else if participants == Set::<Seq<char>>::empty() {
                (m, Err(ModeErrorView::NoParticipants))
            } else {
                let id = TransitionId(m.next_transition_id);
                (
                    ModeModel {
                        phase: ModePhase::Preparing {
                            transition_id: id,
                            current_mode: mode,
                            target_mode: target,
                            waiting_for: participants,
                            ready: Set::empty(),
                        },
                        next_transition_id: following_id(m.next_transition_id),
                    },
                    Ok(id),
                )
            }
        },
        _ => (m, Err(ModeErrorView::TransitionInProgress)),
    }
}

/// `application` answering ready to transition `response_id`.
pub open spec fn ready_step(m: ModeModel, application: Seq<char>, response_id: TransitionId) -> (
    ModeModel,
    Result<Option<ModeEventView>, ModeErrorView>,
) {
    match m.phase {
        ModePhase::Preparing { transition_id, current_mode, target_mode, waiting_for, ready } => {
            if transition_id != response_id {
                (m, Err(ModeErrorView::StaleTransition))
            } else if !waiting_for.contains(application) {
                (m, Err(ModeErrorView::UnknownParticipant(application)))
            } else {
                let still_waiting = waiting_for.remove(application);
                let now_ready = ready.insert(application);
                if still_waiting == Set::<Seq<char>>::empty() {
                    (
                        ModeModel {
                            phase: ModePhase::Committing {
                                transition_id,
                                previous_mode: current_mode,
                                target_mode,
                                waiting_for: now_ready,
                                committed: Set::empty(),
                            },
                            ..m
                        },
                        Ok(Some(ModeEventView::PreparationComplete { transition_id, target_mode })),
                    )
                } else {
                    (
                        ModeModel {
                            phase: ModePhase::Preparing {
                                transition_id,
                                current_mode,
                                target_mode,
                                waiting_for: still_waiting,
                                ready: now_ready,
                            },
                            ..m
                        },
                        Ok(None),
                    )
                }
            }
        },
        _ => (m, Err(ModeErrorView::InvalidPhase)),
    }
}

/// `application` rejecting transition `response_id` for `reason`.
pub open spec fn rejected_step(
    m: ModeModel,
    application: Seq<char>,
    response_id: TransitionId,
    reason: Seq<char>,
) -> (ModeModel, Result<ModeEventView, ModeErrorView>) {
    match m.phase {
        ModePhase::Preparing { transition_id, current_mode, waiting_for, ready, .. } => {
            if transition_id != response_id {
                (m, Err(ModeErrorView::StaleTransition))
            } else if !(waiting_for.contains(application) || ready.contains(application)) {
                (m, Err(ModeErrorView::UnknownParticipant(application)))
            } else {
                (
                    ModeModel { phase: ModePhase::Stable { mode: current_mode }, ..m },
                    Ok(ModeEventView::TransitionAborted { transition_id, rejected_by: application, reason }),
                )
            }
        },
        _ => (m, Err(ModeErrorView::InvalidPhase)),
    }
}

/// `application` confirming that it committed `committed_mode` for
/// transition `response_id`.
pub open spec fn committed_step(
    m: ModeModel,
    application: Seq<char>,
    response_id: TransitionId,
    committed_mode: SystemMode,
) -> (ModeModel, Result<Option<ModeEventView>, ModeErrorView>) {
    match m.phase {
        ModePhase::Committing { transition_id, previous_mode, target_mode, waiting_for, committed } => {
            if transition_id != response_id {
                (m, Err(ModeErrorView::StaleTransition))
            } else if target_mode != committed_mode {
                (m, Err(ModeErrorView::WrongCommittedMode))
            } else if !waiting_for.contains(application) {
                (m, Err(ModeErrorView::UnknownParticipant(application)))
            } else {
                let still_waiting = waiting_for.remove(application);
                if still_waiting == Set::<Seq<char>>::empty() {
                    (
                        ModeModel { phase: ModePhase::Stable { mode: target_mode }, ..m },
                        Ok(Some(ModeEventView::TransitionComplete { transition_id, mode: target_mode })),
                    )
                } else {
                    (
                        ModeModel {
                            phase: ModePhase::Committing {
                                transition_id,
                                previous_mode,
                                target_mode,
                                waiting_for: still_waiting,
                                committed: committed.insert(application),
                            },
                            ..m
                        },
                        Ok(None),
                    )
                }
            }
        },
        _ => (m, Err(ModeErrorView::InvalidPhase)),
    }
}

/// The view of an optional event.
pub open spec fn event_option_view(event: Option<ModeEvent>) -> Option<ModeEventView> {
    match event {
        Some(e) => Some(e@),
        None => None,
    }
}

/// The view of the result of a ready or committed response.
pub open spec fn response_view(result: Result<Option<ModeEvent>, ModeError>) -> Result<Option<ModeEventView>, ModeErrorView> {
    match result {
        Ok(e) => Ok(event_option_view(e)),
        Err(e) => Err(e@),
    }
}

/// Drives the system mode through the two-phase transition protocol. Only
/// one transition is in flight at a time.
#[derive(Debug)]
pub struct ModeManager {
    state: ModeManagerState,
    next_transition_id: u64,
}

impl View for ModeManager {
    type V = ModeModel;

    closed spec fn view(&self) -> ModeModel {
        ModeModel { phase: self.state@, next_transition_id: self.next_transition_id }
    }
}

impl ModeManager {
    /// The concrete sets are well formed and the protocol invariant holds.
    pub closed spec fn wf(&self) -> bool {
        &&& phase_wf(self.state@)
        &&& match &self.state {
            ModeManagerState::Stable { .. } => true,
            ModeManagerState::Preparing { waiting_for, ready, .. } => waiting_for.wf() && ready.wf(),
            ModeManagerState::Committing { waiting_for, committed, .. } => waiting_for.wf() && committed.wf(),
        }
    }

    pub fn new(initial_mode: SystemMode) -> (manager: Self)
        ensures
            manager.wf(),
            manager@.phase == (ModePhase::Stable { mode: initial_mode }),
            manager@.next_transition_id == 1,
    {
        ModeManager { state: ModeManagerState::Stable { mode: initial_mode }, next_transition_id: 1 }
    }

    pub fn state(&self) -> (state: &ModeManagerState)
        ensures
            state@ == self@.phase,
    {
        &self.state
    }

    /// The mode the system operates in, or is transitioning away from while
    /// a transition is under way. It only becomes the new mode once the
    /// transition has fully committed.
    pub fn current_mode(&self) -> (mode: SystemMode)
        ensures
            mode == phase_mode(self@.phase),
    {
        match &self.state {
            ModeManagerState::Stable { mode } => *mode,
            ModeManagerState::Preparing { current_mode, .. } => *current_mode,
            ModeManagerState::Committing { previous_mode, .. } => *previous_mode,
        }
    }

    /// Begins a transition to `target_mode`, entering `Preparing` and
    /// waiting for a ready or rejected answer from every participant.
    ///
    /// Fails with `TransitionInProgress` if a transition is under way,
    /// `AlreadyInMode` if `target_mode` is the current mode, and
    /// `NoParticipants` if nobody could confirm the transition.
    pub fn request_transition(&mut self, target_mode: SystemMode, participants: Vec<ApplicationId>) -> (result: Result<TransitionId, ModeError>)
        requires
            old(self).wf(),
        ensures
            final(self).wf(),
            (final(self)@, match result { Ok(id) => Ok(id), Err(e) => Err(e@) })
                == request_step(old(self)@, target_mode, participants@.map_values(|a: ApplicationId| a@).to_set()),
    {
        let current_mode = match &self.state {
            ModeManagerState::Stable { mode } => *mode,
            _ => {
                return Err(ModeError::TransitionInProgress);
            },
        };
        if current_mode == target_mode {
            return Err(ModeError::AlreadyInMode);
        }
        let waiting_for = ApplicationSet::from_ids(participants);
        if waiting_for.is_empty() {
            return Err(ModeError::NoParticipants);
        }
        let transition_id = TransitionId(self.next_transition_id);
        self.next_transition_id = self.next_transition_id.wrapping_add(1);
        let ready = ApplicationSet::new();
        self.state = ModeManagerState::Preparing { transition_id, current_mode, target_mode, waiting_for, ready };
        Ok(transition_id)
    }

    /// Records that `application` approves the transition in preparation.
    /// Once nobody is awaited any more, moves to `Committing` and returns
    /// `PreparationComplete`; otherwise returns `None`.
    ///
    /// Fails with `InvalidPhase` outside `Preparing`, `StaleTransition` if
    /// `response_id` is not the active transition, and `UnknownParticipant`
    /// if `application` is not awaited (or has already answered).
    pub fn application_ready(&mut self, application: &ApplicationId, response_id: TransitionId) -> (result: Result<Option<ModeEvent>, ModeError>)
        requires
            old(self).wf(),
        ensures
            final(self).wf(),
            (final(self)@, response_view(result)) == ready_step(old(self)@, application@, response_id),
    {
        let (transition_id, current_mode, target_mode) = match &self.state {
            ModeManagerState::Preparing { transition_id, current_mode, target_mode, waiting_for, .. } => {
                if *transition_id != response_id {
                    return Err(ModeError::StaleTransition);
                }
                if !waiting_for.contains(application) {
                    return Err(ModeError::UnknownParticipant(application.duplicate()));
                }
                (*transition_id, *current_mode, *target_mode)
            },
            _ => {
                return Err(ModeError::InvalidPhase);
            },
        };
        let mut state = ModeManagerState::Stable { mode: current_mode };
        std::mem::swap(&mut state, &mut self.state);
        match state {
            ModeManagerState::Preparing { mut waiting_for, mut ready, .. } => {
                waiting_for.remove(application);
                ready.insert(application.duplicate());
                assert(ready@.contains(application@));
                assert(waiting_for@.disjoint(ready@));
                if waiting_for.is_empty() {
                    let participants = ready.duplicate();
                    self.state = ModeManagerState::Committing {
                        transition_id,
                        previous_mode: current_mode,
                        target_mode,
                        waiting_for: participants,
                        committed: ApplicationSet::new(),
                    };
                    Ok(Some(ModeEvent::PreparationComplete { transition_id, target_mode }))
                } else {
                    self.state = ModeManagerState::Preparing { transition_id, current_mode, target_mode, waiting_for, ready };
                    Ok(None)
                }
            },
            _ => {
                proof {
                    assert(false);
                }
                Err(ModeError::InvalidPhase)
            },
        }
    }

    /// Records that `application` rejects the transition in preparation,
    /// aborting it at once: the state returns to `Stable` in the mode the
    /// system was in, and every other answer is discarded.
    ///
    /// `application` may still be awaited or already ready: a participant
    /// that said it was ready may still back out before the commit. Fails
    /// with `InvalidPhase`, `StaleTransition` or `UnknownParticipant` under
    /// the same conditions as `application_ready`.
    pub fn application_rejected(&mut self, application: &ApplicationId, response_id: TransitionId, reason: String) -> (result: Result<ModeEvent, ModeError>)
        requires
            old(self).wf(),
        ensures
            final(self).wf(),
            (final(self)@, match result { Ok(e) => Ok(e@), Err(e) => Err(e@) })
                == rejected_step(old(self)@, application@, response_id, reason@),
    {
        let (transition_id, current_mode, is_participant) = match &self.state {
            ModeManagerState::Preparing { transition_id, current_mode, waiting_for, ready, .. } => {
                (*transition_id, *current_mode, waiting_for.contains(application) || ready.contains(application))
            },
            _ => {
                return Err(ModeError::InvalidPhase);
            },
        };
        if transition_id != response_id {
            return Err(ModeError::StaleTransition);
        }
        if !is_participant {
            return Err(ModeError::UnknownParticipant(application.duplicate()));
        }
        let event = ModeEvent::TransitionAborted { transition_id, rejected_by: application.duplicate(), reason };
        self.state = ModeManagerState::Stable { mode: current_mode };
        Ok(event)
    }

    /// Records that `application` committed `committed_mode`. Once every
    /// participant that was ready has committed, returns to `Stable` in the
    /// new mode and returns `TransitionComplete`; otherwise `None`.
    ///
    /// Fails with `InvalidPhase`, `StaleTransition` or `UnknownParticipant`
    /// under the same conditions as `application_ready`, and with
    /// `WrongCommittedMode` if `committed_mode` is not the target.
    pub fn application_committed(
        &mut self,
        application: &ApplicationId,
        response_id: TransitionId,
        committed_mode: SystemMode,
    ) -> (result: Result<Option<ModeEvent>, ModeError>)
        requires
            old(self).wf(),
        ensures
            final(self).wf(),
            (final(self)@, response_view(result)) == committed_step(old(self)@, application@, response_id, committed_mode),
    {
        let (transition_id, previous_mode, target_mode) = match &self.state {
            ModeManagerState::Committing { transition_id, previous_mode, target_mode, waiting_for, .. } => {
                if *transition_id != response_id {
                    return Err(ModeError::StaleTransition);
                }
                if *target_mode != committed_mode {
                    return Err(ModeError::WrongCommittedMode);
                }
                if !waiting_for.contains(application) {
                    return Err(ModeError::UnknownParticipant(application.duplicate()));
                }
                (*transition_id, *previous_mode, *target_mode)
            },
            _ => {
                return Err(ModeError::InvalidPhase);
            },
        };
        let mut state = ModeManagerState::Stable { mode: target_mode };
        std::mem::swap(&mut state, &mut self.state);
        match state {
            ModeManagerState::Committing { mut waiting_for, mut committed, .. } => {
                waiting_for.remove(application);
                committed.insert(application.duplicate());
                if waiting_for.is_empty() {
                    Ok(Some(ModeEvent::TransitionComplete { transition_id, mode: target_mode }))
                } else {
                    self.state = ModeManagerState::Committing { transition_id, previous_mode, target_mode, waiting_for, committed };
                    Ok(None)
                }
            },
            _ => {
                proof {
                    assert(false);
                }
                Err(ModeError::InvalidPhase)
            },
        }
    }
}

/// The transition that responses must name, if one is under way.
pub open spec fn active_transition(phase: ModePhase) -> Option<TransitionId> {
    match phase {
        ModePhase::Stable { .. } => None,
        ModePhase::Preparing { transition_id, .. } => Some(transition_id),
        ModePhase::Committing { transition_id, .. } => Some(transition_id),
    }
}

/// Everyone taking part in the transition under way: those still awaited
/// and those who have answered.
pub open spec fn transition_participants(phase: ModePhase) -> Set<Seq<char>> {
    match phase {
        ModePhase::Stable { .. } => Set::empty(),
        ModePhase::Preparing { waiting_for, ready, .. } => waiting_for.union(ready),
        ModePhase::Committing { waiting_for, committed, .. } => waiting_for.union(committed),
    }
}

/// The system mode changes only when a transition completes, and then it
/// becomes the transition's target: requests, ready answers and rejections
/// never change it, and a commit confirmation changes it only when it
/// completes the transition.
pub proof fn law_mode_changes_only_on_completion(
    m: ModeModel,
    target: SystemMode,
    participants: Set<Seq<char>>,
    application: Seq<char>,
    response_id: TransitionId,
    reason: Seq<char>,
    committed_mode: SystemMode,
)
    ensures
        phase_mode(request_step(m, target, participants).0.phase) == phase_mode(m.phase),
        phase_mode(ready_step(m, application, response_id).0.phase) == phase_mode(m.phase),
        phase_mode(rejected_step(m, application, response_id, reason).0.phase) == phase_mode(m.phase),
        ({
            let (post, result) = committed_step(m, application, response_id, committed_mode);
            phase_mode(post.phase) != phase_mode(m.phase) ==> result == Ok::<Option<ModeEventView>, ModeErrorView>(Some(
                ModeEventView::TransitionComplete { transition_id: response_id, mode: committed_mode },
            )) && phase_mode(post.phase) == committed_mode
        }),
{
}

/// A refused request or response leaves the manager exactly as it was.
pub proof fn law_refusals_change_nothing(
    m: ModeModel,
    target: SystemMode,
    participants: Set<Seq<char>>,
    application: Seq<char>,
    response_id: TransitionId,
    reason: Seq<char>,
    committed_mode: SystemMode,
)
    ensures
        request_step(m, target, participants).1 is Err ==> request_step(m, target, participants).0 == m,
        ready_step(m, application, response_id).1 is Err ==> ready_step(m, application, response_id).0 == m,
        rejected_step(m, application, response_id, reason).1 is Err
            ==> rejected_step(m, application, response_id, reason).0 == m,
        committed_step(m, application, response_id, committed_mode).1 is Err
            ==> committed_step(m, application, response_id, committed_mode).0 == m,
{
}

/// A response that does not name the transition under way (a delayed
/// answer to an earlier transition, or any answer while stable) is refused
/// and changes nothing.
pub proof fn law_stale_responses_change_nothing(
    m: ModeModel,
    application: Seq<char>,
    response_id: TransitionId,
    reason: Seq<char>,
    committed_mode: SystemMode,
)
    requires
        active_transition(m.phase) != Some(response_id),
    ensures
        ready_step(m, application, response_id).0 == m,
        ready_step(m, application, response_id).1 is Err,
        rejected_step(m, application, response_id, reason).0 == m,
        rejected_step(m, application, response_id, reason).1 is Err,
        committed_step(m, application, response_id, committed_mode).0 == m,
        committed_step(m, application, response_id, committed_mode).1 is Err,
{
}

/// Only one transition is in flight at a time: while one is under way,
/// every request is refused with `TransitionInProgress`.
pub proof fn law_one_transition_at_a_time(m: ModeModel, target: SystemMode, participants: Set<Seq<char>>)
    requires
        !(m.phase is Stable),
    ensures
        request_step(m, target, participants) == (m, Err::<TransitionId, ModeErrorView>(ModeErrorView::TransitionInProgress)),
{
}

/// A rejection that is accepted aborts the transition: the manager is
/// stable again, in the mode the transition started from.
pub proof fn law_rejection_restores_previous_mode(
    m: ModeModel,
    application: Seq<char>,
    response_id: TransitionId,
    reason: Seq<char>,
)
    requires
        rejected_step(m, application, response_id, reason).1 is Ok,
    ensures
        rejected_step(m, application, response_id, reason).0.phase == (ModePhase::Stable { mode: phase_mode(m.phase) }),
{
}

/// Every step keeps the protocol invariant.
pub proof fn law_steps_keep_invariant(
    m: ModeModel,
    target: SystemMode,
    participants: Set<Seq<char>>,
    application: Seq<char>,
    response_id: TransitionId,
    reason: Seq<char>,
    committed_mode: SystemMode,
)
    requires
        phase_wf(m.phase),
    ensures
        phase_wf(request_step(m, target, participants).0.phase),
        phase_wf(ready_step(m, application, response_id).0.phase),
        phase_wf(rejected_step(m, application, response_id, reason).0.phase),
        phase_wf(committed_step(m, application, response_id, committed_mode).0.phase),
{
    let (post, _) = ready_step(m, application, response_id);
    match (m.phase, post.phase) {
        (ModePhase::Preparing { waiting_for, ready, .. }, ModePhase::Committing { waiting_for: w2, .. }) => {
            assert(w2.contains(application));
        },
        (ModePhase::Preparing { waiting_for, ready, .. }, ModePhase::Preparing { waiting_for: w2, ready: r2, .. }) => {
            assert(w2.disjoint(r2));
        },
        _ => {},
    }
    let (post, _) = committed_step(m, application, response_id, committed_mode);
    match (m.phase, post.phase) {
        (ModePhase::Committing { waiting_for, committed, .. }, ModePhase::Committing { waiting_for: w2, committed: c2, .. }) => {
            assert(w2.disjoint(c2));
        },
        _ => {},
    }
}

/// Consent is unanimous. Ready answers and commit confirmations never
/// change who takes part; preparation completes only with the last awaited
/// participant, after which every participant is awaited for the commit;
/// and the transition completes only with the last participant's commit.
pub proof fn law_consent_is_unanimous(
    m: ModeModel,
    application: Seq<char>,
    response_id: TransitionId,
    committed_mode: SystemMode,
)
    requires
        phase_wf(m.phase),
    ensures
        ({
            let (post, result) = ready_step(m, application, response_id);
            &&& post.phase is Preparing ==> transition_participants(post.phase) == transition_participants(m.phase)
            &&& result matches Ok(Some(_)) ==> {
                &&& m.phase matches ModePhase::Preparing { waiting_for, .. } && waiting_for == set![application]
                &&& post.phase matches ModePhase::Committing { waiting_for, committed, .. }
                    && waiting_for == transition_participants(m.phase) && committed == Set::<Seq<char>>::empty()
            }
        }),
        ({
            let (post, result) = committed_step(m, application, response_id, committed_mode);
            &&& post.phase is Committing ==> transition_participants(post.phase) == transition_participants(m.phase)
            &&& result matches Ok(Some(_)) ==> (m.phase matches ModePhase::Committing { waiting_for, committed, .. }
                && waiting_for == set![application] && committed.insert(application) == transition_participants(m.phase))
        }),
{
    let (post, result) = ready_step(m, application, response_id);
    if let ModePhase::Preparing { waiting_for, ready, transition_id, .. } = m.phase {
        if transition_id == response_id && waiting_for.contains(application) {
            let w = waiting_for.remove(application);
            let r = ready.insert(application);
            assert(w.union(r) =~= waiting_for.union(ready));
            if w == Set::<Seq<char>>::empty() {
                assert(waiting_for =~= set![application]) by {
                    assert forall|n: Seq<char>| waiting_for.contains(n) implies n == application by {
                        if n != application {
                            assert(w.contains(n));
                        }
                    }
                }
            }
        }
    }
    let (post, result) = committed_step(m, application, response_id, committed_mode);
    if let ModePhase::Committing { waiting_for, committed, transition_id, target_mode, .. } = m.phase {
        if transition_id == response_id && target_mode == committed_mode && waiting_for.contains(application) {
            let w = waiting_for.remove(application);
            assert(w.union(committed.insert(application)) =~= waiting_for.union(committed));
            if w == Set::<Seq<char>>::empty() {
                assert(waiting_for =~= set![application]) by {
                    assert forall|n: Seq<char>| waiting_for.contains(n) implies n == application by {
                        if n != application {
                            assert(w.contains(n));
                        }
                    }
                }
                assert(committed.insert(application) =~= waiting_for.union(committed));
            }
        }
    }
}

/// The manager after each of `names`, in order, answers ready to
/// transition `id`.
pub open spec fn after_ready_answers(m: ModeModel, names: Seq<Seq<char>>, id: TransitionId) -> ModeModel
    decreases names.len(),
{
    if names.len() == 0 {
        m
    } else {
        after_ready_answers(ready_step(m, names[0], id).0, names.drop_first(), id)
    }
}

/// The manager after each of `names`, in order, confirms that it committed
/// `mode` for transition `id`.
pub open spec fn after_commit_confirmations(m: ModeModel, names: Seq<Seq<char>>, id: TransitionId, mode: SystemMode) -> ModeModel
    decreases names.len(),
{
    if names.len() == 0 {
        m
    } else {
        after_commit_confirmations(committed_step(m, names[0], id, mode).0, names.drop_first(), id, mode)
    }
}

proof fn lemma_ready_answers_complete_preparation(m: ModeModel, names: Seq<Seq<char>>, id: TransitionId)
    requires
        names.len() > 0,
        names.no_duplicates(),
        m.phase matches ModePhase::Preparing { transition_id, waiting_for, ready, .. } && transition_id == id
            && waiting_for == names.to_set() && waiting_for.disjoint(ready),
    ensures
        after_ready_answers(m, names, id).phase == (ModePhase::Committing {
            transition_id: id,
            previous_mode: m.phase->Preparing_current_mode,
            target_mode: m.phase->Preparing_target_mode,
            waiting_for: m.phase->Preparing_waiting_for.union(m.phase->Preparing_ready),
            committed: Set::empty(),
        }),
        after_ready_answers(m, names, id).next_transition_id == m.next_transition_id,
    decreases names.len(),
{
    let waiting_for = m.phase->Preparing_waiting_for;
    let ready = m.phase->Preparing_ready;
    let first = names[0];
    let rest = names.drop_first();
    assert(names.to_set().contains(first)) by {
        assert(names[0] == first);
    }
    let still_waiting = waiting_for.remove(first);
    assert(still_waiting =~= rest.to_set()) by {
        assert forall|n: Seq<char>| still_waiting.contains(n) <==> rest.to_set().contains(n) by {
            if still_waiting.contains(n) {
                let i = choose|i: int| 0 <= i < names.len() && names[i] == n;
                assert(i != 0);
                assert(rest[i - 1] == n);
            }
            if rest.to_set().contains(n) {
                let i = choose|i: int| 0 <= i < rest.len() && rest[i] == n;
                assert(names[i + 1] == n);
                assert(n != first);
            }
        }
    }
    let next = ready_step(m, first, id).0;
    if names.len() == 1 {
        assert(rest.to_set() =~= Set::<Seq<char>>::empty()) by {
            assert forall|n: Seq<char>| !rest.to_set().contains(n) by {}
        }
        assert(after_ready_answers(next, rest, id) == next);
        assert(ready.insert(first) =~= waiting_for.union(ready)) by {
            assert(waiting_for =~= set![first]);
        }
    } else {
        assert(rest.len() > 0);
        assert(rest.to_set().contains(rest[0]));
        assert(still_waiting != Set::<Seq<char>>::empty());
        assert(rest.no_duplicates());
        lemma_ready_answers_complete_preparation(next, rest, id);
        assert(still_waiting.union(ready.insert(first)) =~= waiting_for.union(ready));
    }
}

proof fn lemma_commit_confirmations_complete_transition(
    m: ModeModel,
    names: Seq<Seq<char>>,
    id: TransitionId,
    mode: SystemMode,
)
    requires
        names.len() > 0,
        names.no_duplicates(),
        m.phase matches ModePhase::Committing { transition_id, target_mode, waiting_for, .. } && transition_id == id
            && target_mode == mode && waiting_for == names.to_set(),
    ensures
        after_commit_confirmations(m, names, id, mode).phase == (ModePhase::Stable { mode }),
        after_commit_confirmations(m, names, id, mode).next_transition_id == m.next_transition_id,
    decreases names.len(),
{
    let waiting_for = m.phase->Committing_waiting_for;
    let first = names[0];
    let rest = names.drop_first();
    assert(names.to_set().contains(first)) by {
        assert(names[0] == first);
    }
    let still_waiting = waiting_for.remove(first);
    assert(still_waiting =~= rest.to_set()) by {
        assert forall|n: Seq<char>| still_waiting.contains(n) <==> rest.to_set().contains(n) by {
            if still_waiting.contains(n) {
                let i = choose|i: int| 0 <= i < names.len() && names[i] == n;
                assert(i != 0);
                assert(rest[i - 1] == n);
            }
            if rest.to_set().contains(n) {
                let i = choose|i: int| 0 <= i < rest.len() && rest[i] == n;
                assert(names[i + 1] == n);
                assert(n != first);
            }
        }
    }
    let next = committed_step(m, first, id, mode).0;
    if names.len() == 1 {
        assert(rest.to_set() =~= Set::<Seq<char>>::empty()) by {
            assert forall|n: Seq<char>| !rest.to_set().contains(n) by {}
        }
        assert(after_commit_confirmations(next, rest, id, mode) == next);
    } else {
        assert(rest.to_set().contains(rest[0]));
        assert(still_waiting != Set::<Seq<char>>::empty());
        lemma_commit_confirmations_complete_transition(next, rest, id, mode);
    }
}

/// Unanimous consent completes a transition. From a stable manager, a
/// request for another mode with some participants starts a transition;
/// once every participant has answered ready, in any order, the manager
/// awaits every participant's commit; and once every participant has
/// confirmed the commit, in any order, the system is stable in the target
/// mode.
pub proof fn law_unanimous_consent_completes_the_transition(
    m: ModeModel,
    target: SystemMode,
    participants: Set<Seq<char>>,
    ready_order: Seq<Seq<char>>,
    commit_order: Seq<Seq<char>>,
)
    requires
        m.phase is Stable,
        phase_mode(m.phase) != target,
        participants != Set::<Seq<char>>::empty(),
        ready_order.no_duplicates(),
        ready_order.to_set() == participants,
        commit_order.no_duplicates(),
        commit_order.to_set() == participants,
    ensures
        ({
            let (started, result) = request_step(m, target, participants);
            let id = TransitionId(m.next_transition_id);
            let prepared = after_ready_answers(started, ready_order, id);
            &&& result == Ok::<TransitionId, ModeErrorView>(id)
            &&& prepared.phase == ModePhase::Committing {
                transition_id: id,
                previous_mode: phase_mode(m.phase),
                target_mode: target,
                waiting_for: participants,
                committed: Set::empty(),
            }
            &&& after_commit_confirmations(prepared, commit_order, id, target).phase == (ModePhase::Stable {
                mode: target,
            })
        }),
{
    let (started, _) = request_step(m, target, participants);
    let id = TransitionId(m.next_transition_id);
    assert(ready_order.len() > 0) by {
        if ready_order.len() == 0 {
            assert(ready_order.to_set() =~= Set::<Seq<char>>::empty());
        }
    }
    assert(commit_order.len() > 0) by {
        if commit_order.len() == 0 {
            assert(commit_order.to_set() =~= Set::<Seq<char>>::empty());
        }
    }
    lemma_ready_answers_complete_preparation(started, ready_order, id);
    assert(participants.union(Set::<Seq<char>>::empty()) =~= participants);
    let prepared = after_ready_answers(started, ready_order, id);
    lemma_commit_confirmations_complete_transition(prepared, commit_order, id, target);
}

/// Whether the transition under way, if any, was numbered below the
/// counter of transition identifiers.
pub open spec fn transition_id_below_counter(m: ModeModel) -> bool {
    match active_transition(m.phase) {
        Some(id) => id.0 < m.next_transition_id,
        None => true,
    }
}

/// Transition identifiers are issued afresh: until the counter runs out,
/// every step keeps the transition under way numbered below the counter.
pub proof fn law_transition_ids_stay_below_the_counter(
    m: ModeModel,
    target: SystemMode,
    participants: Set<Seq<char>>,
    application: Seq<char>,
    response_id: TransitionId,
    reason: Seq<char>,
    committed_mode: SystemMode,
)
    requires
        transition_id_below_counter(m),
        m.next_transition_id < u64::MAX,
    ensures
        transition_id_below_counter(request_step(m, target, participants).0),
        transition_id_below_counter(ready_step(m, application, response_id).0),
        transition_id_below_counter(rejected_step(m, application, response_id, reason).0),
        transition_id_below_counter(committed_step(m, application, response_id, committed_mode).0),
{
}

/// A new transition is never confused with an earlier one: once a
/// transition has started, every answer that names an identifier issued
/// before it is refused and changes nothing.
pub proof fn law_earlier_transition_ids_are_stale(
    m: ModeModel,
    target: SystemMode,
    participants: Set<Seq<char>>,
    earlier: TransitionId,
    application: Seq<char>,
    reason: Seq<char>,
    committed_mode: SystemMode,
)
    requires
        earlier.0 < m.next_transition_id,
        request_step(m, target, participants).1 is Ok,
    ensures
        ({
            let post = request_step(m, target, participants).0;
            &&& ready_step(post, application, earlier) == (post, Err::<Option<ModeEventView>, ModeErrorView>(
                ModeErrorView::StaleTransition,
            ))
            &&& rejected_step(post, application, earlier, reason) == (post, Err::<ModeEventView, ModeErrorView>(
                ModeErrorView::StaleTransition,
            ))
            &&& committed_step(post, application, earlier, committed_mode).0 == post
            &&& committed_step(post, application, earlier, committed_mode).1 is Err
        }),
{
}

/// A call on a `ModeManager`, with its arguments as plain values.
pub enum ModeCall {
    Request { target: SystemMode, participants: Set<Seq<char>> },
    Ready { application: Seq<char>, response_id: TransitionId },
    Rejected { application: Seq<char>, response_id: TransitionId, reason: Seq<char> },
    Committed { application: Seq<char>, response_id: TransitionId, mode: SystemMode },
}

/// The manager after `call`.
pub open spec fn after_call(m: ModeModel, call: ModeCall) -> ModeModel {
    match call {
        ModeCall::Request { target, participants } => request_step(m, target, participants).0,
        ModeCall::Ready { application, response_id } => ready_step(m, application, response_id).0,
        ModeCall::Rejected { application, response_id, reason } => rejected_step(
            m,
            application,
            response_id,
            reason,
        ).0,
        ModeCall::Committed { application, response_id, mode } => committed_step(m, application, response_id, mode).0,
    }
}

/// The mode that `call` makes authoritative by completing a transition,
/// if it does.
pub open spec fn completed_by(m: ModeModel, call: ModeCall) -> Option<SystemMode> {
    match call {
        ModeCall::Committed { application, response_id, mode } => match committed_step(
            m,
            application,
            response_id,
            mode,
        ).1 {
            Ok(Some(ModeEventView::TransitionComplete { mode: completed, .. })) => Some(completed),
            _ => None,
        },
        _ => None,
    }
}

/// The manager after each of `calls`, in order.
pub open spec fn after_calls(m: ModeModel, calls: Seq<ModeCall>) -> ModeModel
    decreases calls.len(),
{
    if calls.len() == 0 {
        m
    } else {
        after_calls(after_call(m, calls[0]), calls.drop_first())
    }
}

/// The mode of the last transition that `calls` complete, starting from
/// `m`, or `mode` if they complete none.
pub open spec fn last_completed_mode(m: ModeModel, calls: Seq<ModeCall>, mode: SystemMode) -> SystemMode
    decreases calls.len(),
{
    if calls.len() == 0 {
        mode
    } else {
        let next = match completed_by(m, calls[0]) {
            Some(completed) => completed,
            None => mode,
        };
        last_completed_mode(after_call(m, calls[0]), calls.drop_first(), next)
    }
}

/// After any sequence of calls, the system mode is the mode of the last
/// transition that completed, or the mode it started in if none did: no
/// other call ever makes a mode authoritative.
pub proof fn law_mode_is_the_last_completed_transition(m: ModeModel, calls: Seq<ModeCall>)
    ensures
        phase_mode(after_calls(m, calls).phase) == last_completed_mode(m, calls, phase_mode(m.phase)),
    decreases calls.len(),
{
    if calls.len() > 0 {
        let call = calls[0];
        match call {
            ModeCall::Request { target, participants } => {
                law_mode_changes_only_on_completion(m, target, participants, Seq::empty(), TransitionId(0),
                    Seq::empty(), target);
            },
            ModeCall::Ready { application, response_id } => {
                law_mode_changes_only_on_completion(m, SystemMode::Startup, Set::empty(), application,
                    response_id, Seq::empty(), SystemMode::Startup);
            },
            ModeCall::Rejected { application, response_id, reason } => {
                law_mode_changes_only_on_completion(m, SystemMode::Startup, Set::empty(), application,
                    response_id, reason, SystemMode::Startup);
            },
            ModeCall::Committed { application, response_id, mode } => {
                law_mode_changes_only_on_completion(m, SystemMode::Startup, Set::empty(), application,
                    response_id, Seq::empty(), mode);
            },
        }
        law_mode_is_the_last_completed_transition(after_call(m, call), calls.drop_first());
    }
}

/// Whether `call` is a request that the manager grants.
pub open spec fn grants(m: ModeModel, call: ModeCall) -> bool {
    match call {
        ModeCall::Request { target, participants } => request_step(m, target, participants).1 is Ok,
        _ => false,
    }
}

/// How many of `calls`, made in order from `m`, are granted requests.
pub open spec fn granted_requests(m: ModeModel, calls: Seq<ModeCall>) -> nat
    decreases calls.len(),
{
    if calls.len() == 0 {
        0
    } else {
        (if grants(m, calls[0]) {
            1nat
        } else {
            0nat
        }) + granted_requests(after_call(m, calls[0]), calls.drop_first())
    }
}

/// Transition identifiers count the granted requests: after any sequence
/// of calls (short of exhausting the counter), the counter has advanced by
/// exactly the number of requests granted, and the next granted request
/// gets the identifier the counter then holds. From a new manager, whose
/// counter is 1, the k-th granted request therefore gets identifier k, and
/// successive transitions get distinct, increasing identifiers.
pub proof fn law_transition_ids_count_granted_requests(
    m: ModeModel,
    calls: Seq<ModeCall>,
    target: SystemMode,
    participants: Set<Seq<char>>,
)
    requires
        m.next_transition_id + calls.len() < u64::MAX,
    ensures
        after_calls(m, calls).next_transition_id == m.next_transition_id + granted_requests(m, calls),
        request_step(after_calls(m, calls), target, participants).1 is Ok ==> request_step(
            after_calls(m, calls),
            target,
            participants,
        ).1 == Ok::<TransitionId, ModeErrorView>(
            TransitionId((m.next_transition_id + granted_requests(m, calls)) as u64),
        ),
    decreases calls.len(),
{
    lemma_granted_requests_bounded(m, calls);
    if calls.len() > 0 {
        let next = after_call(m, calls[0]);
        assert(next.next_transition_id == m.next_transition_id + if grants(m, calls[0]) {
            1int
        } else {
            0int
        });
        law_transition_ids_count_granted_requests(next, calls.drop_first(), target, participants);
    }
}

proof fn lemma_granted_requests_bounded(m: ModeModel, calls: Seq<ModeCall>)
    ensures
        granted_requests(m, calls) <= calls.len(),
    decreases calls.len(),
{
    if calls.len() > 0 {
        lemma_granted_requests_bounded(after_call(m, calls[0]), calls.drop_first());
    }
}

/// A participant may back out of a transition until it commits: while the
/// transition is being prepared, a rejection of it by any of its
/// participants, one still awaited or one that has already answered ready,
/// is accepted and aborts it, naming who rejected and why, and the manager
/// is stable again in the mode the transition started from.
pub proof fn law_any_participant_may_reject_before_commit(m: ModeModel, application: Seq<char>, reason: Seq<char>)
    requires
        m.phase matches ModePhase::Preparing { waiting_for, ready, .. } && (waiting_for.contains(application)
            || ready.contains(application)),
    ensures
        rejected_step(m, application, m.phase->Preparing_transition_id, reason) == (
            ModeModel {
                phase: ModePhase::Stable { mode: m.phase->Preparing_current_mode },
                next_transition_id: m.next_transition_id,
            },
            Ok::<ModeEventView, ModeErrorView>(
                ModeEventView::TransitionAborted {
                    transition_id: m.phase->Preparing_transition_id,
                    rejected_by: application,
                    reason,
                },
            ),
        ),
{
}

/// Answering ready does not bind a participant: when a ready answer is
/// accepted and others are still awaited, the same participant's later
/// rejection of the same transition is accepted and returns the manager
/// to the mode the transition started from.
pub proof fn law_ready_participant_can_still_back_out(
    m: ModeModel,
    application: Seq<char>,
    response_id: TransitionId,
    reason: Seq<char>,
)
    requires
        ready_step(m, application, response_id).1 == Ok::<Option<ModeEventView>, ModeErrorView>(None),
    ensures
        ({
            let after_ready = ready_step(m, application, response_id).0;
            let (after_reject, result) = rejected_step(after_ready, application, response_id, reason);
            &&& result == Ok::<ModeEventView, ModeErrorView>(
                ModeEventView::TransitionAborted { transition_id: response_id, rejected_by: application, reason },
            )
            &&& after_reject.phase == (ModePhase::Stable { mode: phase_mode(m.phase) })
        }),
{
}

} // verus!

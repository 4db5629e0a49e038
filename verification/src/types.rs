//! Shared vocabulary of the SAM protocol: system modes, health states,
//! transition identifiers and application identifiers.

use vstd::prelude::*;
use vstd::std_specs::cmp::PartialEqSpecImpl;
use vstd::std_specs::convert::FromSpecImpl;

use crate::text::IntoOwnedString;

verus! {

/// Version of the `ApplicationToSam`/`SamToApplication` wire protocol spoken
/// by this build. Sent in `Register` and echoed back in `RegisterAccepted` so
/// that a SAM/client mismatch is detected explicitly at connect time.
pub const PROTOCOL_VERSION: u16 = 1;

/// Operating mode of the overall system. Applications and SAM agree on a
/// single `SystemMode` at any given time; changes are coordinated by the
/// two-phase protocol of `ModeManager`.
#[derive(Debug, Clone, Copy, PartialEq, Eq, Structural)]
pub enum SystemMode {
    Startup,
    Standby,
    Working,
}

/// Health of one application, or of the whole system once aggregated by
/// `HealthManager`: `Failed` dominates `Degraded`, which dominates `Healthy`.
#[derive(Debug, Clone, Copy, PartialEq, Eq, Structural)]
pub enum HealthState {
    Healthy,
    Degraded,
    Failed,
}

/// Identifier of one mode transition attempt, issued by `ModeManager` and
/// echoed back by applications so that responses to a superseded transition
/// can be told apart.
#[derive(Debug, Clone, Copy, PartialEq, Eq, Hash, Structural)]
pub struct TransitionId(pub u64);

/// Stable identifier of an application taking part in the SAM protocol.
#[derive(Debug, Clone, Eq, Hash)]
pub struct ApplicationId(pub String);

impl View for ApplicationId {
    type V = Seq<char>;

    open spec fn view(&self) -> Seq<char> {
        self.0@
    }
}

impl PartialEq for ApplicationId {
    fn eq(&self, other: &Self) -> (same: bool) {
        self.0 == other.0
    }
}

impl PartialEqSpecImpl for ApplicationId {
    open spec fn obeys_eq_spec() -> bool {
        true
    }

    open spec fn eq_spec(&self, other: &Self) -> bool {
        self.0@ == other.0@
    }
}

impl ApplicationId {
    pub fn new<T: IntoOwnedString>(value: T) -> (id: Self)
        ensures
            id@ == value.text_view(),
    {
        ApplicationId(value.into_owned_string())
    }

    /// A second identifier with the same name.
    pub fn duplicate(&self) -> (id: Self)
        ensures
            id@ == self@,
    {
        ApplicationId(self.0.clone())
    }
}

impl IntoOwnedString for ApplicationId {
    open spec fn text_view(&self) -> Seq<char> {
        self@
    }

    fn into_owned_string(self) -> (s: String) {
        self.0
    }
}

impl<'a> From<&'a str> for ApplicationId {
    fn from(value: &'a str) -> (id: Self)
        ensures
            id@ == value@,
    {
        Self::new(value)
    }
}

impl<'a> FromSpecImpl<&'a str> for ApplicationId {
    open spec fn obeys_from_spec() -> bool {
        false
    }

    open spec fn from_spec(v: &'a str) -> Self {
        ApplicationId::named(v@)
    }
}

impl ApplicationId {
    /// An identifier whose name is `name`.
    pub closed spec fn named(name: Seq<char>) -> Self {
        choose|id: ApplicationId| id@ == name
    }
}

} // verus!

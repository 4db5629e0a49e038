//! SAM's system-wide snapshot: the current mode and aggregated health.

use vstd::prelude::*;

use crate::types::{HealthState, SystemMode};

verus! {

/// The current system mode plus the health aggregated over every
/// registered application.
#[derive(Debug, Clone, Copy, PartialEq, Eq, Structural)]
pub struct SystemState {
    pub mode: SystemMode,
    pub health: HealthState,
}

impl Default for SystemState {
    /// A fresh system starts in `Startup` and counts as healthy until an
    /// application reports otherwise.
    fn default() -> (state: Self)
        ensures
            state == (SystemState { mode: SystemMode::Startup, health: HealthState::Healthy }),
    {
        SystemState { mode: SystemMode::Startup, health: HealthState::Healthy }
    }
}

} // verus!

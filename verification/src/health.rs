//! Aggregation of per-application health into system-wide health.

use vstd::prelude::*;

use crate::registry::{ApplicationRegistry, ApplicationStatus};
use crate::types::HealthState;

verus! {

/// How long ago, in milliseconds, `then` was at `now`; zero if `then` lies
/// in the future.
pub open spec fn elapsed(now: u64, then: u64) -> nat {
    if now >= then {
        (now - then) as nat
    } else {
        0
    }
}

/// Whether an application counts as failed: it is disconnected, has been
/// silent for longer than `timeout`, or reports `Failed` itself.
pub open spec fn application_fails(status: ApplicationStatus, now: u64, timeout: u64) -> bool {
    ||| !status.connected
    ||| elapsed(now, status.last_heartbeat) > timeout
    ||| status.health == HealthState::Failed
}

/// The health of one application as SAM judges it.
pub open spec fn application_health(status: ApplicationStatus, now: u64, timeout: u64) -> HealthState {
    if application_fails(status, now, timeout) {
        HealthState::Failed
    } else if status.health == HealthState::Degraded {
        HealthState::Degraded
    } else {
        HealthState::Healthy
    }
}

/// System health over `applications`: `Failed` as soon as one application
/// fails, otherwise `Degraded` if one reports `Degraded`, otherwise
/// `Healthy` (so no applications at all is `Healthy`).
pub open spec fn aggregate_health(
    applications: Map<Seq<char>, ApplicationStatus>,
    now: u64,
    timeout: u64,
) -> HealthState {
    if exists|name: Seq<char>| #[trigger] applications.contains_key(name)
        && application_fails(applications[name], now, timeout) {
        HealthState::Failed
    } else if exists|name: Seq<char>| #[trigger] applications.contains_key(name)
        && applications[name].health == HealthState::Degraded {
        HealthState::Degraded
    } else {
        HealthState::Healthy
    }
}

/// Aggregates per-application health into one system-wide `HealthState`.
#[derive(Debug, Clone, Copy)]
pub struct HealthManager {
    heartbeat_timeout: u64,
}

impl HealthManager {
    /// A manager for which a heartbeat older than `heartbeat_timeout`
    /// milliseconds counts as missing.
    pub fn new(heartbeat_timeout: u64) -> (manager: Self)
        ensures
            manager.timeout() == heartbeat_timeout,
    {
        HealthManager { heartbeat_timeout }
    }

    pub closed spec fn timeout(&self) -> u64 {
        self.heartbeat_timeout
    }

    /// The health of one application at `now`.
    pub fn calculate_application(&self, status: &ApplicationStatus, now: u64) -> (health: HealthState)
        ensures
            health == application_health(*status, now, self.timeout()),
    {
        let age: u64 = if now >= status.last_heartbeat { now - status.last_heartbeat } else { 0 };
        if !status.connected || age > self.heartbeat_timeout || status.health == HealthState::Failed {
            HealthState::Failed
        } else if status.health == HealthState::Degraded {
            HealthState::Degraded
        } else {
            HealthState::Healthy
        }
    }

    /// System health over every application in `registry` at `now`.
    pub fn calculate(&self, registry: &ApplicationRegistry, now: u64) -> (health: HealthState)
        requires
            registry.wf(),
        ensures
            health == aggregate_health(registry@, now, self.timeout()),
    {
        let entries = registry.iter();
        let mut overall = HealthState::Healthy;
        let mut i: usize = 0;
        while i < entries.len()
            invariant
                i <= entries@.len(),
                forall|j: int| 0 <= j < entries@.len() ==> registry@.contains_key(#[trigger] entries@[j].0@)
                    && *entries@[j].1 == registry@[entries@[j].0@],
                forall|j: int| 0 <= j < i ==> !application_fails(*#[trigger] entries@[j].1, now, self.timeout()),
                overall == HealthState::Healthy || overall == HealthState::Degraded,
                (overall == HealthState::Degraded) == (exists|j: int| 0 <= j < i
                    && (#[trigger] entries@[j].1).health == HealthState::Degraded),
            decreases entries@.len() - i,
        {
            let status = entries[i].1;
            let age: u64 = if now >= status.last_heartbeat { now - status.last_heartbeat } else { 0 };
            if !status.connected || age > self.heartbeat_timeout || status.health == HealthState::Failed {
                proof {
                    let name = entries@[i as int].0@;
                    assert(registry@.contains_key(name) && application_fails(registry@[name], now, self.timeout()));
                }
                return HealthState::Failed;
            }
            if status.health == HealthState::Degraded {
                overall = HealthState::Degraded;
            }
            i = i + 1;
        }
        proof {
            assert forall|name: Seq<char>| #[trigger] registry@.contains_key(name) implies
                !application_fails(registry@[name], now, self.timeout()) by {
                let j = choose|j: int| 0 <= j < entries@.len() && entries@[j].0@ == name;
                assert(!application_fails(*entries@[j].1, now, self.timeout()));
            }
            if overall == HealthState::Degraded {
                let j = choose|j: int| 0 <= j < i && (#[trigger] entries@[j].1).health == HealthState::Degraded;
                let name = entries@[j].0@;
                assert(registry@.contains_key(name) && registry@[name].health == HealthState::Degraded);
            } else {
                assert forall|name: Seq<char>| #[trigger] registry@.contains_key(name) implies
                    registry@[name].health != HealthState::Degraded by {
                    let j = choose|j: int| 0 <= j < entries@.len() && entries@[j].0@ == name;
                    assert(entries@[j].1.health != HealthState::Degraded);
                }
            }
        }
        overall
    }
}

/// How bad a health state is: `Healthy` < `Degraded` < `Failed`.
pub open spec fn severity(health: HealthState) -> nat {
    match health {
        HealthState::Healthy => 0,
        HealthState::Degraded => 1,
        HealthState::Failed => 2,
    }
}

/// System health is the health of its worst application: no application
/// is worse than the system, and, unless there are none (when the system
/// is `Healthy`), some application is exactly as bad as the system.
pub proof fn law_system_health_is_the_worst(applications: Map<Seq<char>, ApplicationStatus>, now: u64, timeout: u64)
    ensures
        forall|name: Seq<char>| #[trigger] applications.contains_key(name) ==> severity(
            application_health(applications[name], now, timeout),
        ) <= severity(aggregate_health(applications, now, timeout)),
        applications.dom().is_empty() ==> aggregate_health(applications, now, timeout) == HealthState::Healthy,
        !applications.dom().is_empty() ==> exists|name: Seq<char>| #[trigger] applications.contains_key(name)
            && application_health(applications[name], now, timeout) == aggregate_health(applications, now, timeout),
{
    let overall = aggregate_health(applications, now, timeout);
    if applications.dom().is_empty() {
        assert forall|name: Seq<char>| !applications.contains_key(name) by {
            assert(!applications.dom().contains(name));
        }
    } else {
        let some = applications.dom().choose();
        assert(applications.contains_key(some));
        if overall == HealthState::Failed {
            let name = choose|name: Seq<char>| #[trigger] applications.contains_key(name)
                && application_fails(applications[name], now, timeout);
            assert(application_health(applications[name], now, timeout) == overall);
        } else if overall == HealthState::Degraded {
            let name = choose|name: Seq<char>| #[trigger] applications.contains_key(name)
                && applications[name].health == HealthState::Degraded;
            assert(application_health(applications[name], now, timeout) == overall);
        } else {
            assert(application_health(applications[some], now, timeout) == overall);
        }
    }
}

/// Silence only makes health worse: with no new heartbeat, system health
/// at a later time is at least as bad as at an earlier one.
pub proof fn law_health_worsens_with_silence(
    applications: Map<Seq<char>, ApplicationStatus>,
    earlier: u64,
    later: u64,
    timeout: u64,
)
    requires
        earlier <= later,
    ensures
        severity(aggregate_health(applications, earlier, timeout)) <= severity(
            aggregate_health(applications, later, timeout),
        ),
{
    assert forall|status: ApplicationStatus| #[trigger] application_fails(status, earlier, timeout) implies
        application_fails(status, later, timeout) by {
        assert(elapsed(earlier, status.last_heartbeat) <= elapsed(later, status.last_heartbeat));
    }
    if aggregate_health(applications, earlier, timeout) == HealthState::Failed {
        let name = choose|name: Seq<char>| #[trigger] applications.contains_key(name)
            && application_fails(applications[name], earlier, timeout);
        assert(application_fails(applications[name], later, timeout));
    }
}

} // verus!

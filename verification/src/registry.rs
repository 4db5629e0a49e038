//! The registry of every application SAM knows about, with its last-known
//! status.

use vstd::prelude::*;
use vstd::string::StringExecFns;

use crate::types::{ApplicationId, HealthState, SystemMode};

verus! {

/// Why a registry operation was refused.
#[derive(Debug, PartialEq, Eq)]
pub enum RegistryError {
    NotRegistered(ApplicationId),
}

impl RegistryError {
    /// The human-readable description of the error.
    pub fn to_string(&self) -> (text: String)
        ensures
            text@ == registry_error_text(*self),
    {
        match self {
            RegistryError::NotRegistered(application) => {
                let mut text = String::from_str("application is not registered: ");
                crate::text::push_debug_application(&mut text, application);
                proof {
                    reveal_strlit("application is not registered: ");
                }
                text
            },
        }
    }
}

/// The description of a registry error.
pub open spec fn registry_error_text(error: RegistryError) -> Seq<char> {
    match error {
        RegistryError::NotRegistered(application) => "application is not registered: "@
            + crate::text::debug_application(application@),
    }
}

/// Last-known status of one registered application. Times are in
/// milliseconds on a monotonic clock.
#[derive(Debug, Clone, Copy, PartialEq, Eq, Structural)]
pub struct ApplicationStatus {
    pub current_mode: SystemMode,
    pub health: HealthState,
    pub last_heartbeat: u64,
    pub connected: bool,
}

/// The status a newly registered application starts with: healthy, in
/// `Startup` mode, connected, with its heartbeat clock starting at `now`.
pub open spec fn fresh_status(now: u64) -> ApplicationStatus {
    ApplicationStatus {
        current_mode: SystemMode::Startup,
        health: HealthState::Healthy,
        last_heartbeat: now,
        connected: true,
    }
}

impl ApplicationStatus {
    pub fn new(now: u64) -> (status: Self)
        ensures
            status == fresh_status(now),
    {
        ApplicationStatus {
            current_mode: SystemMode::Startup,
            health: HealthState::Healthy,
            last_heartbeat: now,
            connected: true,
        }
    }
}

/// Every application SAM knows about, keyed by application name. Entries
/// are never removed: a disconnected application stays visible until it
/// registers again.
#[derive(Debug)]
pub struct ApplicationRegistry {
    ids: Vec<ApplicationId>,
    statuses: Vec<ApplicationStatus>,
}

impl View for ApplicationRegistry {
    type V = Map<Seq<char>, ApplicationStatus>;

    closed spec fn view(&self) -> Map<Seq<char>, ApplicationStatus> {
        Map::new(
            |name: Seq<char>| self.holds(name),
            |name: Seq<char>| self.statuses@[self.position(name)],
        )
    }
}

impl Default for ApplicationRegistry {
    fn default() -> (registry: Self)
        ensures
            registry.wf(),
            registry@ == Map::<Seq<char>, ApplicationStatus>::empty(),
    {
        let registry = ApplicationRegistry { ids: Vec::new(), statuses: Vec::new() };
        assert(registry@ =~= Map::<Seq<char>, ApplicationStatus>::empty());
        registry
    }
}

impl ApplicationRegistry {
    /// The two columns line up and no name occurs twice.
    pub closed spec fn wf(&self) -> bool {
        &&& self.ids@.len() == self.statuses@.len()
        &&& forall|i: int, j: int|
            0 <= i < self.ids@.len() && 0 <= j < self.ids@.len() && i != j
                ==> self.ids@[i]@ != self.ids@[j]@
    }

    spec fn holds(&self, name: Seq<char>) -> bool {
        exists|i: int| 0 <= i < self.ids@.len() && self.ids@[i]@ == name
    }

    spec fn position(&self, name: Seq<char>) -> int {
        choose|i: int| 0 <= i < self.ids@.len() && self.ids@[i]@ == name
    }

    proof fn lemma_entry(&self, i: int)
        requires
            self.wf(),
            0 <= i < self.ids@.len(),
        ensures
            self@.contains_key(self.ids@[i]@),
            self@[self.ids@[i]@] == self.statuses@[i],
            self.position(self.ids@[i]@) == i,
    {
        let name = self.ids@[i]@;
        assert(self.holds(name));
        let j = self.position(name);
        assert(0 <= j < self.ids@.len() && self.ids@[j]@ == name);
    }

    proof fn lemma_lookup(&self, name: Seq<char>)
        requires
            self.wf(),
            self@.contains_key(name),
        ensures
            0 <= self.position(name) < self.ids@.len(),
            self.ids@[self.position(name)]@ == name,
    {
        assert(self.holds(name));
    }

    fn find(&self, application: &ApplicationId) -> (found: Option<usize>)
        requires
            self.wf(),
        ensures
            match found {
                Some(i) => i < self.ids@.len() && self.ids@[i as int]@ == application@
                    && self@.contains_key(application@),
                None => !self@.contains_key(application@),
            },
    {
        let mut i: usize = 0;
        while i < self.ids.len()
            invariant
                self.wf(),
                i <= self.ids@.len(),
                forall|j: int| 0 <= j < i ==> self.ids@[j]@ != application@,
            decreases self.ids@.len() - i,
        {
            if self.ids[i] == *application {
                proof {
                    self.lemma_entry(i as int);
                }
                return Some(i);
            }
            i = i + 1;
        }
        None
    }

    /// Replaces the status at position `i`, which holds `name`.
    fn set_status(&mut self, i: usize, status: ApplicationStatus)
        requires
            old(self).wf(),
            i < old(self).ids@.len(),
        ensures
            final(self).wf(),
            final(self)@ == old(self)@.insert(old(self).ids@[i as int]@, status),
    {
        let ghost before = *self;
        self.statuses.set(i, status);
        proof {
            let name = before.ids@[i as int]@;
            before.lemma_entry(i as int);
            assert forall|k: Seq<char>| #[trigger] self@.contains_key(k) == before@.insert(name, status).contains_key(k) by {
                if self.holds(k) {
                    let j = self.position(k);
                    assert(before.holds(k)) by {
                        assert(0 <= j < before.ids@.len() && before.ids@[j]@ == k);
                    }
                }
                if before.holds(k) {
                    let j = before.position(k);
                    assert(self.holds(k)) by {
                        assert(0 <= j < self.ids@.len() && self.ids@[j]@ == k);
                    }
                }
            }
            assert forall|k: Seq<char>| #[trigger] self@.contains_key(k) implies self@[k] == before@.insert(name, status)[k] by {
                self.lemma_lookup(k);
                let j = self.position(k);
                self.lemma_entry(j);
                if j != i {
                    before.lemma_entry(j);
                }
            }
            assert(self@ =~= before@.insert(name, status));
        }
    }

    /// Registers an application, replacing any existing entry for the same
    /// name with a fresh status.
    pub fn register(&mut self, application: ApplicationId, now: u64)
        requires
            old(self).wf(),
        ensures
            final(self).wf(),
            final(self)@ == old(self)@.insert(application@, fresh_status(now)),
    {
        match self.find(&application) {
            Some(i) => {
                self.set_status(i, ApplicationStatus::new(now));
            },
            None => {
                let ghost before = *self;
                let ghost name = application@;
                self.ids.push(application);
                self.statuses.push(ApplicationStatus::new(now));
                proof {
                    let n = before.ids@.len() as int;
                    assert(self.wf());
                    self.lemma_entry(n);
                    assert forall|k: Seq<char>| #[trigger] self@.contains_key(k) == before@.insert(name, fresh_status(now)).contains_key(k) by {
                        if self.holds(k) && k != name {
                            let j = self.position(k);
                            assert(j != n);
                            assert(before.holds(k)) by {
                                assert(0 <= j < before.ids@.len() && before.ids@[j]@ == k);
                            }
                        }
                        if before.holds(k) {
                            let j = before.position(k);
                            assert(self.holds(k)) by {
                                assert(0 <= j < self.ids@.len() && self.ids@[j]@ == k);
                            }
                        }
                    }
                    assert forall|k: Seq<char>| #[trigger] self@.contains_key(k) implies self@[k] == before@.insert(name, fresh_status(now))[k] by {
                        self.lemma_lookup(k);
                        let j = self.position(k);
                        self.lemma_entry(j);
                        if j != n {
                            before.lemma_entry(j);
                        }
                    }
                    assert(self@ =~= before@.insert(name, fresh_status(now)));
                }
            },
        }
    }

    /// Marks a registered application as disconnected without removing it,
    /// so that its last-known status stays visible.
    pub fn mark_disconnected(&mut self, application: &ApplicationId) -> (result: Result<(), RegistryError>)
        requires
            old(self).wf(),
        ensures
            final(self).wf(),
            old(self)@.contains_key(application@) ==> result is Ok && final(self)@ == old(self)@.insert(
                application@,
                ApplicationStatus { connected: false, ..old(self)@[application@] },
            ),
            !old(self)@.contains_key(application@) ==> *final(self) == *old(self) && (result matches Err(
                RegistryError::NotRegistered(a),
            ) && a@ == application@),
    {
        match self.find(application) {
            Some(i) => {
                proof {
                    self.lemma_entry(i as int);
                }
                let status = ApplicationStatus { connected: false, ..self.statuses[i] };
                self.set_status(i, status);
                Ok(())
            },
            None => Err(RegistryError::NotRegistered(application.duplicate())),
        }
    }

    /// Records a heartbeat of a registered application: its health, mode
    /// and heartbeat time are updated and it counts as connected again.
    pub fn update_heartbeat(
        &mut self,
        application: &ApplicationId,
        health: HealthState,
        mode: SystemMode,
        now: u64,
    ) -> (result: Result<(), RegistryError>)
        requires
            old(self).wf(),
        ensures
            final(self).wf(),
            old(self)@.contains_key(application@) ==> result is Ok && final(self)@ == old(self)@.insert(
                application@,
                ApplicationStatus { current_mode: mode, health, last_heartbeat: now, connected: true },
            ),
            !old(self)@.contains_key(application@) ==> *final(self) == *old(self) && (result matches Err(
                RegistryError::NotRegistered(a),
            ) && a@ == application@),
    {
        match self.find(application) {
            Some(i) => {
                let status = ApplicationStatus { current_mode: mode, health, last_heartbeat: now, connected: true };
                self.set_status(i, status);
                Ok(())
            },
            None => Err(RegistryError::NotRegistered(application.duplicate())),
        }
    }

    /// Records a committed mode right away rather than waiting for the
    /// application's next heartbeat.
    pub fn set_mode(&mut self, application: &ApplicationId, mode: SystemMode) -> (result: Result<(), RegistryError>)
        requires
            old(self).wf(),
        ensures
            final(self).wf(),
            old(self)@.contains_key(application@) ==> result is Ok && final(self)@ == old(self)@.insert(
                application@,
                ApplicationStatus { current_mode: mode, ..old(self)@[application@] },
            ),
            !old(self)@.contains_key(application@) ==> *final(self) == *old(self) && (result matches Err(
                RegistryError::NotRegistered(a),
            ) && a@ == application@),
    {
        match self.find(application) {
            Some(i) => {
                proof {
                    self.lemma_entry(i as int);
                }
                let status = ApplicationStatus { current_mode: mode, ..self.statuses[i] };
                self.set_status(i, status);
                Ok(())
            },
            None => Err(RegistryError::NotRegistered(application.duplicate())),
        }
    }

    pub fn get(&self, application: &ApplicationId) -> (status: Option<&ApplicationStatus>)
        requires
            self.wf(),
        ensures
            match status {
                Some(s) => self@.contains_key(application@) && *s == self@[application@],
                None => !self@.contains_key(application@),
            },
    {
        match self.find(application) {
            Some(i) => {
                proof {
                    self.lemma_entry(i as int);
                }
                Some(&self.statuses[i])
            },
            None => None,
        }
    }

    /// The name of every registered application, each once.
    pub fn ids(&self) -> (ids: Vec<&ApplicationId>)
        requires
            self.wf(),
        ensures
            forall|i: int| 0 <= i < ids@.len() ==> self@.contains_key(#[trigger] ids@[i]@),
            forall|name: Seq<char>| #[trigger] self@.contains_key(name) ==> exists|i: int|
                0 <= i < ids@.len() && ids@[i]@ == name,
            forall|i: int, j: int| 0 <= i < ids@.len() && 0 <= j < ids@.len() && i != j ==> ids@[i]@ != ids@[j]@,
    {
        let mut ids: Vec<&ApplicationId> = Vec::new();
        let mut i: usize = 0;
        while i < self.ids.len()
            invariant
                self.wf(),
                i <= self.ids@.len(),
                ids@.len() == i,
                forall|j: int| 0 <= j < i ==> ids@[j] == self.ids@[j],
            decreases self.ids@.len() - i,
        {
            ids.push(&self.ids[i]);
            i = i + 1;
        }
        proof {
            assert forall|j: int| 0 <= j < ids@.len() implies self@.contains_key(#[trigger] ids@[j]@) by {
                self.lemma_entry(j);
            }
            assert forall|name: Seq<char>| #[trigger] self@.contains_key(name) implies exists|j: int|
                0 <= j < ids@.len() && ids@[j]@ == name by {
                self.lemma_lookup(name);
                let j = self.position(name);
                assert(ids@[j]@ == name);
            }
        }
        ids
    }

    /// Every registered application with its status, each once.
    pub fn iter(&self) -> (entries: Vec<(&ApplicationId, &ApplicationStatus)>)
        requires
            self.wf(),
        ensures
            forall|i: int| 0 <= i < entries@.len() ==> self@.contains_key(#[trigger] entries@[i].0@)
                && *entries@[i].1 == self@[entries@[i].0@],
            forall|name: Seq<char>| #[trigger] self@.contains_key(name) ==> exists|i: int|
                0 <= i < entries@.len() && entries@[i].0@ == name,
            forall|i: int, j: int|
                0 <= i < entries@.len() && 0 <= j < entries@.len() && i != j ==> entries@[i].0@ != entries@[j].0@,
    {
        let mut entries: Vec<(&ApplicationId, &ApplicationStatus)> = Vec::new();
        let mut i: usize = 0;
        while i < self.ids.len()
            invariant
                self.wf(),
                i <= self.ids@.len(),
                entries@.len() == i,
                forall|j: int| 0 <= j < i ==> entries@[j].0 == self.ids@[j] && entries@[j].1 == self.statuses@[j],
            decreases self.ids@.len() - i,
        {
            entries.push((&self.ids[i], &self.statuses[i]));
            i = i + 1;
        }
        proof {
            assert forall|j: int| 0 <= j < entries@.len() implies self@.contains_key(#[trigger] entries@[j].0@)
                && *entries@[j].1 == self@[entries@[j].0@] by {
                self.lemma_entry(j);
            }
            assert forall|name: Seq<char>| #[trigger] self@.contains_key(name) implies exists|j: int|
                0 <= j < entries@.len() && entries@[j].0@ == name by {
                self.lemma_lookup(name);
                let j = self.position(name);
                assert(entries@[j].0@ == name);
            }
            assert forall|a: int, b: int|
                0 <= a < entries@.len() && 0 <= b < entries@.len() && a != b implies entries@[a].0@ != entries@[b].0@ by {
                assert(entries@[a].0 == self.ids@[a]);
                assert(entries@[b].0 == self.ids@[b]);
            }
        }
        entries
    }

    pub fn is_empty(&self) -> (empty: bool)
        requires
            self.wf(),
        ensures
            empty == (self@ == Map::<Seq<char>, ApplicationStatus>::empty()),
    {
        proof {
            if self.ids@.len() > 0 {
                self.lemma_entry(0);
                assert(!(self@ =~= Map::<Seq<char>, ApplicationStatus>::empty()));
            } else {
                assert(self@ =~= Map::<Seq<char>, ApplicationStatus>::empty());
            }
        }
        self.ids.len() == 0
    }
}

} // verus!

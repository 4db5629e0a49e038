//! A set of application identifiers, as the mode transition protocol keeps
//! them: who is still awaited, who is ready, who has committed.

use vstd::prelude::*;
use vstd::std_specs::cmp::PartialEqSpecImpl;

use crate::types::ApplicationId;

verus! {

/// A set of applications, compared and looked up by name.
#[derive(Debug, Clone, Eq)]
pub struct ApplicationSet {
    members: Vec<ApplicationId>,
}

impl View for ApplicationSet {
    type V = Set<Seq<char>>;

    closed spec fn view(&self) -> Set<Seq<char>> {
        Set::new(|name: Seq<char>| exists|i: int| 0 <= i < self.members@.len() && self.members@[i]@ == name)
    }
}

impl PartialEq for ApplicationSet {
    /// Two sets are equal when they hold the same names, in any order.
    fn eq(&self, other: &Self) -> (same: bool) {
        let forward = self.covered_by(other);
        let backward = other.covered_by(self);
        proof {
            if forward && backward {
                assert(self@ =~= other@);
            }
        }
        forward && backward
    }
}

impl PartialEqSpecImpl for ApplicationSet {
    open spec fn obeys_eq_spec() -> bool {
        true
    }

    open spec fn eq_spec(&self, other: &Self) -> bool {
        self@ == other@
    }
}

impl ApplicationSet {
    spec fn names(&self) -> Seq<Seq<char>> {
        self.members@.map_values(|a: ApplicationId| a@)
    }

    /// No name is held twice.
    pub closed spec fn wf(&self) -> bool {
        self.names().no_duplicates()
    }

    proof fn lemma_member(&self, i: int)
        requires
            0 <= i < self.members@.len(),
        ensures
            self@.contains(self.members@[i]@),
    {
    }

    proof fn lemma_named(&self, name: Seq<char>)
        requires
            self@.contains(name),
        ensures
            exists|i: int| 0 <= i < self.members@.len() && self.members@[i]@ == name,
    {
    }

    proof fn lemma_names(&self)
        ensures
            self@ =~= self.names().to_set(),
            self.names().len() == self.members@.len(),
    {
        assert forall|name: Seq<char>| #[trigger] self@.contains(name) == self.names().to_set().contains(name) by {
            if self@.contains(name) {
                let i = choose|i: int| 0 <= i < self.members@.len() && self.members@[i]@ == name;
                assert(self.names()[i] == name);
            }
            if self.names().to_set().contains(name) {
                let i = choose|i: int| 0 <= i < self.names().len() && self.names()[i] == name;
                assert(self.members@[i]@ == name);
            }
        }
    }

    /// The empty set.
    pub fn new() -> (set: Self)
        ensures
            set.wf(),
            set@ == Set::<Seq<char>>::empty(),
    {
        let set = ApplicationSet { members: Vec::new() };
        assert(set@ =~= Set::<Seq<char>>::empty());
        set
    }

    fn position(&self, application: &ApplicationId) -> (found: Option<usize>)
        ensures
            match found {
                Some(i) => i < self.members@.len() && self.members@[i as int]@ == application@,
                None => !self@.contains(application@),
            },
    {
        let mut i: usize = 0;
        while i < self.members.len()
            invariant
                i <= self.members@.len(),
                forall|j: int| 0 <= j < i ==> self.members@[j]@ != application@,
            decreases self.members@.len() - i,
        {
            if self.members[i] == *application {
                return Some(i);
            }
            i = i + 1;
        }
        proof {
            if self@.contains(application@) {
                self.lemma_named(application@);
            }
        }
        None
    }

    fn covered_by(&self, other: &Self) -> (covered: bool)
        ensures
            covered == self@.subset_of(other@),
    {
        let mut i: usize = 0;
        while i < self.members.len()
            invariant
                i <= self.members@.len(),
                forall|j: int| 0 <= j < i ==> other@.contains(#[trigger] self.members@[j]@),
            decreases self.members@.len() - i,
        {
            match other.position(&self.members[i]) {
                None => {
                    proof {
                        self.lemma_member(i as int);
                    }
                    return false;
                },
                Some(j) => {
                    proof {
                        other.lemma_member(j as int);
                    }
                },
            }
            i = i + 1;
        }
        proof {
            assert forall|name: Seq<char>| self@.contains(name) implies other@.contains(name) by {
                self.lemma_named(name);
            }
        }
        true
    }

    pub fn contains(&self, application: &ApplicationId) -> (found: bool)
        ensures
            found == self@.contains(application@),
    {
        match self.position(application) {
            Some(i) => {
                proof {
                    self.lemma_member(i as int);
                }
                true
            },
            None => false,
        }
    }

    /// Adds `application`; returns whether it was not there yet.
    pub fn insert(&mut self, application: ApplicationId) -> (added: bool)
        requires
            old(self).wf(),
        ensures
            final(self).wf(),
            final(self)@ == old(self)@.insert(application@),
            added == !old(self)@.contains(application@),
    {
        if self.contains(&application) {
            return false;
        }
        let ghost before = self.names();
        let ghost name = application@;
        self.members.push(application);
        proof {
            assert(self.names() =~= before.push(name));
            assert forall|i: int, j: int| 0 <= i < self.names().len() && 0 <= j < self.names().len() && i != j
                implies self.names()[i] != self.names()[j] by {
                if i == before.len() as int {
                    assert(old(self).members@[j]@ == before[j]);
                    old(self).lemma_member(j);
                } else if j == before.len() as int {
                    assert(old(self).members@[i]@ == before[i]);
                    old(self).lemma_member(i);
                }
            }
            assert forall|n: Seq<char>| #[trigger] self@.contains(n) == old(self)@.insert(name).contains(n) by {
                if self@.contains(n) {
                    let i = choose|i: int| 0 <= i < self.members@.len() && self.members@[i]@ == n;
                    if i < before.len() {
                        assert(self.members@[i] == old(self).members@[i]);
                        old(self).lemma_member(i);
                    }
                }
                if n == name {
                    assert(self.members@[before.len() as int]@ == name);
                }
                if old(self)@.contains(n) {
                    let i = choose|i: int| 0 <= i < old(self).members@.len() && old(self).members@[i]@ == n;
                    assert(self.members@[i]@ == n);
                }
            }
            assert(self@ =~= old(self)@.insert(name));
        }
        true
    }

    /// Removes `application`; returns whether it was there.
    pub fn remove(&mut self, application: &ApplicationId) -> (removed: bool)
        requires
            old(self).wf(),
        ensures
            final(self).wf(),
            final(self)@ == old(self)@.remove(application@),
            removed == old(self)@.contains(application@),
    {
        match self.position(application) {
            None => {
                assert(self@ =~= self@.remove(application@));
                false
            },
            Some(i) => {
                let ghost before = self.names();
                proof {
                    self.lemma_member(i as int);
                }
                self.members.remove(i);
                proof {
                    let k = i as int;
                    assert(self.names() =~= before.remove(k));
                    assert forall|a: int, b: int| 0 <= a < self.names().len() && 0 <= b < self.names().len() && a != b
                        implies self.names()[a] != self.names()[b] by {
                        let a0 = if a < k { a } else { a + 1 };
                        let b0 = if b < k { b } else { b + 1 };
                        assert(self.names()[a] == before[a0]);
                        assert(self.names()[b] == before[b0]);
                    }
                    assert forall|name: Seq<char>| #[trigger] self@.contains(name)
                        == old(self)@.remove(application@).contains(name) by {
                        if self@.contains(name) {
                            let j = choose|j: int| 0 <= j < self.members@.len() && self.members@[j]@ == name;
                            let j0 = if j < k { j } else { j + 1 };
                            assert(self.names()[j] == name);
                            assert(before[j0] == name);
                            assert(before[k] == application@);
                            assert(j0 != k);
                            assert(old(self).members@[j0]@ == name);
                            old(self).lemma_member(j0);
                        }
                        if old(self)@.remove(application@).contains(name) {
                            let j = choose|j: int| 0 <= j < old(self).members@.len() && old(self).members@[j]@ == name;
                            assert(before[j] == name);
                            assert(j != k);
                            let j1 = if j < k { j } else { j - 1 };
                            assert(self.names()[j1] == name);
                            assert(self.members@[j1]@ == name);
                        }
                    }
                    assert(self@ =~= old(self)@.remove(application@));
                }
                true
            },
        }
    }

    pub fn is_empty(&self) -> (empty: bool)
        ensures
            empty == (self@ == Set::<Seq<char>>::empty()),
    {
        proof {
            if self.members@.len() > 0 {
                self.lemma_member(0);
                assert(self@ != Set::<Seq<char>>::empty());
            } else {
                assert(self@ =~= Set::<Seq<char>>::empty());
            }
        }
        self.members.len() == 0
    }

    pub fn len(&self) -> (count: usize)
        requires
            self.wf(),
        ensures
            count == self@.len(),
    {
        proof {
            self.names().unique_seq_to_set();
            self.lemma_names();
        }
        self.members.len()
    }

    /// A second set with the same names.
    pub fn duplicate(&self) -> (copy: Self)
        requires
            self.wf(),
        ensures
            copy.wf(),
            copy@ == self@,
    {
        let mut members: Vec<ApplicationId> = Vec::new();
        let mut i: usize = 0;
        while i < self.members.len()
            invariant
                i <= self.members@.len(),
                members@.len() == i,
                forall|j: int| 0 <= j < i ==> (#[trigger] members@[j])@ == self.members@[j]@,
            decreases self.members@.len() - i,
        {
            members.push(self.members[i].duplicate());
            i = i + 1;
        }
        let copy = ApplicationSet { members };
        assert(copy.names() =~= self.names());
        proof {
            copy.lemma_names();
            self.lemma_names();
        }
        copy
    }

    /// The set of the names in `ids`, each once.
    pub fn from_ids(ids: Vec<ApplicationId>) -> (set: Self)
        ensures
            set.wf(),
            set@ == ids@.map_values(|a: ApplicationId| a@).to_set(),
    {
        let mut set = ApplicationSet::new();
        let mut i: usize = 0;
        let ghost all = ids@.map_values(|a: ApplicationId| a@);
        while i < ids.len()
            invariant
                i <= ids@.len(),
                all == ids@.map_values(|a: ApplicationId| a@),
                set.wf(),
                set@ == all.take(i as int).to_set(),
                forall|j: int| 0 <= j < ids@.len() ==> all[j] == (#[trigger] ids@[j])@,
            decreases ids@.len() - i,
        {
            set.insert(ids[i].duplicate());
            proof {
                let t = all.take(i as int);
                let t1 = all.take(i as int + 1);
                assert(t1 =~= t.push(all[i as int]));
                assert forall|n: Seq<char>| #[trigger] t1.to_set().contains(n) == t.to_set().insert(all[i as int]).contains(n) by {
                    if t1.to_set().contains(n) {
                        let j = choose|j: int| 0 <= j < t1.len() && t1[j] == n;
                        if j < t.len() {
                            assert(t[j] == n);
                        }
                    }
                    if t.to_set().contains(n) {
                        let j = choose|j: int| 0 <= j < t.len() && t[j] == n;
                        assert(t1[j] == n);
                    }
                    if n == all[i as int] {
                        assert(t1[i as int] == n);
                    }
                }
                assert(t1.to_set() =~= t.to_set().insert(all[i as int]));
            }
            i = i + 1;
        }
        assert(all.take(ids@.len() as int) =~= all);
        set
    }

    /// Every member, each once.
    pub fn members(&self) -> (members: &Vec<ApplicationId>)
        ensures
            members@.map_values(|a: ApplicationId| a@).to_set() == self@,
    {
        proof {
            self.lemma_names();
        }
        &self.members
    }
}

} // verus!

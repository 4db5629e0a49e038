//! A table keyed by application name, holding one value per application.

use vstd::prelude::*;

use crate::types::ApplicationId;

verus! {

/// One value per application name; no name occurs twice.
pub struct NameTable<T> {
    names: Vec<ApplicationId>,
    values: Vec<T>,
}

impl<T> View for NameTable<T> {
    type V = Map<Seq<char>, T>;

    closed spec fn view(&self) -> Map<Seq<char>, T> {
        Map::new(|name: Seq<char>| self.holds(name), |name: Seq<char>| self.values@[self.position(name)])
    }
}

impl<T> NameTable<T> {
    /// The columns line up and no name occurs twice.
    pub closed spec fn wf(&self) -> bool {
        &&& self.names@.len() == self.values@.len()
        &&& forall|i: int, j: int|
            0 <= i < self.names@.len() && 0 <= j < self.names@.len() && i != j
                ==> self.names@[i]@ != self.names@[j]@
    }

    spec fn holds(&self, name: Seq<char>) -> bool {
        exists|i: int| 0 <= i < self.names@.len() && self.names@[i]@ == name
    }

    spec fn position(&self, name: Seq<char>) -> int {
        choose|i: int| 0 <= i < self.names@.len() && self.names@[i]@ == name
    }

    /// The entries in table order.
    pub closed spec fn rows(&self) -> Seq<(Seq<char>, T)> {
        Seq::new(self.names@.len(), |i: int| (self.names@[i]@, self.values@[i]))
    }

    proof fn lemma_entry(&self, i: int)
        requires
            self.wf(),
            0 <= i < self.names@.len(),
        ensures
            self@.contains_key(self.names@[i]@),
            self@[self.names@[i]@] == self.values@[i],
            self.position(self.names@[i]@) == i,
    {
        let name = self.names@[i]@;
        assert(self.holds(name));
        let j = self.position(name);
        assert(0 <= j < self.names@.len() && self.names@[j]@ == name);
    }

    proof fn lemma_lookup(&self, name: Seq<char>)
        requires
            self.wf(),
            self@.contains_key(name),
        ensures
            0 <= self.position(name) < self.names@.len(),
            self.names@[self.position(name)]@ == name,
    {
        assert(self.holds(name));
    }

    /// The rows hold exactly the table's entries, each name once.
    pub proof fn lemma_rows(&self)
        requires
            self.wf(),
        ensures
            forall|i: int| 0 <= i < self.rows().len() ==> self@.contains_key(#[trigger] self.rows()[i].0)
                && self@[self.rows()[i].0] == self.rows()[i].1,
            forall|name: Seq<char>| #[trigger] self@.contains_key(name) ==> exists|i: int|
                0 <= i < self.rows().len() && self.rows()[i].0 == name,
            forall|i: int, j: int| 0 <= i < self.rows().len() && 0 <= j < self.rows().len() && i != j
                ==> self.rows()[i].0 != self.rows()[j].0,
    {
        assert forall|i: int| 0 <= i < self.rows().len() implies self@.contains_key(#[trigger] self.rows()[i].0)
            && self@[self.rows()[i].0] == self.rows()[i].1 by {
            self.lemma_entry(i);
        }
        assert forall|name: Seq<char>| #[trigger] self@.contains_key(name) implies exists|i: int|
            0 <= i < self.rows().len() && self.rows()[i].0 == name by {
            self.lemma_lookup(name);
            let i = self.position(name);
            assert(self.rows()[i].0 == name);
        }
    }

    pub fn new() -> (table: Self)
        ensures
            table.wf(),
            table@ == Map::<Seq<char>, T>::empty(),
    {
        let table = NameTable { names: Vec::new(), values: Vec::new() };
        assert(table@ =~= Map::<Seq<char>, T>::empty());
        table
    }

    pub fn len(&self) -> (count: usize)
        requires
            self.wf(),
        ensures
            count == self.rows().len(),
    {
        self.names.len()
    }

    /// The name and value of row `i`.
    pub fn row(&self, i: usize) -> (row: (&ApplicationId, &T))
        requires
            self.wf(),
            i < self.rows().len(),
        ensures
            row.0@ == self.rows()[i as int].0,
            *row.1 == self.rows()[i as int].1,
    {
        (&self.names[i], &self.values[i])
    }

    fn find(&self, name: &ApplicationId) -> (found: Option<usize>)
        requires
            self.wf(),
        ensures
            match found {
                Some(i) => i < self.names@.len() && self.names@[i as int]@ == name@ && self@.contains_key(name@)
                    && self@[name@] == self.values@[i as int],
                None => !self@.contains_key(name@),
            },
    {
        let mut i: usize = 0;
        while i < self.names.len()
            invariant
                self.wf(),
                i <= self.names@.len(),
                forall|j: int| 0 <= j < i ==> self.names@[j]@ != name@,
            decreases self.names@.len() - i,
        {
            if self.names[i] == *name {
                proof {
                    self.lemma_entry(i as int);
                }
                return Some(i);
            }
            i = i + 1;
        }
        None
    }

    pub fn get(&self, name: &ApplicationId) -> (value: Option<&T>)
        requires
            self.wf(),
        ensures
            match value {
                Some(v) => self@.contains_key(name@) && *v == self@[name@],
                None => !self@.contains_key(name@),
            },
    {
        match self.find(name) {
            Some(i) => Some(&self.values[i]),
            None => None,
        }
    }

    /// Sets the value for `name`, replacing any earlier one.
    pub fn insert(&mut self, name: ApplicationId, value: T)
        requires
            old(self).wf(),
        ensures
            final(self).wf(),
            final(self)@ == old(self)@.insert(name@, value),
    {
        let ghost before = *self;
        let ghost key = name@;
        match self.find(&name) {
            Some(i) => {
                self.values.set(i, value);
                proof {
                    let k = i as int;
                    before.lemma_entry(k);
                    assert forall|n: Seq<char>| #[trigger] self@.contains_key(n) == before@.insert(key, value).contains_key(n) by {
                        if self.holds(n) {
                            let j = self.position(n);
                            assert(before.holds(n)) by {
                                assert(0 <= j < before.names@.len() && before.names@[j]@ == n);
                            }
                        }
                        if before.holds(n) {
                            let j = before.position(n);
                            assert(self.holds(n)) by {
                                assert(0 <= j < self.names@.len() && self.names@[j]@ == n);
                            }
                        }
                    }
                    assert forall|n: Seq<char>| #[trigger] self@.contains_key(n) implies self@[n] == before@.insert(key, value)[n] by {
                        self.lemma_lookup(n);
                        let j = self.position(n);
                        self.lemma_entry(j);
                        if j != k {
                            before.lemma_entry(j);
                        }
                    }
                    assert(self@ =~= before@.insert(key, value));
                }
            },
            None => {
                self.names.push(name);
                self.values.push(value);
                proof {
                    let n0 = before.names@.len() as int;
                    assert(self.wf());
                    self.lemma_entry(n0);
                    assert forall|n: Seq<char>| #[trigger] self@.contains_key(n) == before@.insert(key, value).contains_key(n) by {
                        if self.holds(n) && n != key {
                            let j = self.position(n);
                            assert(j != n0);
                            assert(before.holds(n)) by {
                                assert(0 <= j < before.names@.len() && before.names@[j]@ == n);
                            }
                        }
                        if before.holds(n) {
                            let j = before.position(n);
                            assert(self.holds(n)) by {
                                assert(0 <= j < self.names@.len() && self.names@[j]@ == n);
                            }
                        }
                    }
                    assert forall|n: Seq<char>| #[trigger] self@.contains_key(n) implies self@[n] == before@.insert(key, value)[n] by {
                        self.lemma_lookup(n);
                        let j = self.position(n);
                        self.lemma_entry(j);
                        if j != n0 {
                            before.lemma_entry(j);
                        }
                    }
                    assert(self@ =~= before@.insert(key, value));
                }
            },
        }
    }

    /// Removes the entry for `name`, if there is one.
    pub fn remove(&mut self, name: &ApplicationId)
        requires
            old(self).wf(),
        ensures
            final(self).wf(),
            final(self)@ == old(self)@.remove(name@),
    {
        let ghost before = *self;
        match self.find(name) {
            None => {
                assert(self@ =~= self@.remove(name@));
            },
            Some(i) => {
                self.names.remove(i);
                self.values.remove(i);
                proof {
                    let k = i as int;
                    let shift = |j: int| if j < k { j } else { j + 1 };
                    assert forall|a: int| 0 <= a < self.names@.len() implies self.names@[a] == before.names@[shift(a)]
                        && self.values@[a] == before.values@[shift(a)] by {}
                    assert(self.wf()) by {
                        assert forall|a: int, b: int| 0 <= a < self.names@.len() && 0 <= b < self.names@.len() && a != b
                            implies self.names@[a]@ != self.names@[b]@ by {
                            assert(self.names@[a] == before.names@[shift(a)]);
                            assert(self.names@[b] == before.names@[shift(b)]);
                        }
                    }
                    assert forall|n: Seq<char>| #[trigger] self@.contains_key(n) == before@.remove(name@).contains_key(n) by {
                        if self.holds(n) {
                            let j = self.position(n);
                            assert(self.names@[j] == before.names@[shift(j)]);
                            assert(before.holds(n)) by {
                                assert(0 <= shift(j) < before.names@.len() && before.names@[shift(j)]@ == n);
                            }
                            assert(shift(j) != k);
                        }
                        if before@.remove(name@).contains_key(n) {
                            before.lemma_lookup(n);
                            let j = before.position(n);
                            assert(j != k);
                            let j1 = if j < k { j } else { j - 1 };
                            assert(self.names@[j1] == before.names@[j]);
                            assert(self.holds(n)) by {
                                assert(0 <= j1 < self.names@.len() && self.names@[j1]@ == n);
                            }
                        }
                    }
                    assert forall|n: Seq<char>| #[trigger] self@.contains_key(n) implies self@[n] == before@.remove(name@)[n] by {
                        self.lemma_lookup(n);
                        let j = self.position(n);
                        self.lemma_entry(j);
                        assert(self.names@[j] == before.names@[shift(j)]);
                        before.lemma_entry(shift(j));
                    }
                    assert(self@ =~= before@.remove(name@));
                }
            },
        }
    }

    /// A copy of every name in the table, each once.
    pub fn names(&self) -> (names: Vec<ApplicationId>)
        requires
            self.wf(),
        ensures
            names@.map_values(|a: ApplicationId| a@).to_set() == self@.dom(),
    {
        let mut names: Vec<ApplicationId> = Vec::new();
        let mut i: usize = 0;
        while i < self.names.len()
            invariant
                self.wf(),
                i <= self.names@.len(),
                names@.len() == i,
                forall|j: int| 0 <= j < i ==> (#[trigger] names@[j])@ == self.names@[j]@,
            decreases self.names@.len() - i,
        {
            names.push(self.names[i].duplicate());
            i = i + 1;
        }
        proof {
            let views = names@.map_values(|a: ApplicationId| a@);
            assert forall|n: Seq<char>| #[trigger] views.to_set().contains(n) == self@.dom().contains(n) by {
                if views.to_set().contains(n) {
                    let j = choose|j: int| 0 <= j < views.len() && views[j] == n;
                    self.lemma_entry(j);
                }
                if self@.dom().contains(n) {
                    self.lemma_lookup(n);
                    let j = self.position(n);
                    assert(views[j] == n);
                }
            }
            assert(views.to_set() =~= self@.dom());
        }
        names
    }
}

} // verus!

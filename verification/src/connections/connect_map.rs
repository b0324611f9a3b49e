//! A table of values that are known by name, each name once.

use vstd::prelude::*;

verus! {

/// A table from names to values. The name at each place is the name of the
/// value at that place.
pub struct ConnectMap<T> {
    pub names: Vec<String>,
    pub values: Vec<T>,
}

impl<T> ConnectMap<T> {
    /// Each value has its name, and no name stands twice.
    pub open spec fn wf(&self) -> bool {
        &&& self.names@.len() == self.values@.len()
        &&& forall|i: int, j: int|
            0 <= i < j < self.names@.len() ==> self.names@[i]@ != self.names@[j]@
    }

    /// Whether the table holds a value under `name`.
    pub open spec fn contains(&self, name: Seq<char>) -> bool {
        exists|i: int| 0 <= i < self.names@.len() && self.names@[i]@ == name
    }

    /// The place of `name` in the table.
    pub open spec fn position(&self, name: Seq<char>) -> int {
        choose|i: int| 0 <= i < self.names@.len() && self.names@[i]@ == name
    }

    /// The value that the table holds under `name`.
    pub open spec fn value(&self, name: Seq<char>) -> T {
        self.values@[self.position(name)]
    }

    /// The names of the table.
    pub open spec fn dom(&self) -> Set<Seq<char>> {
        Set::new(|name: Seq<char>| self.contains(name))
    }

    /// Whether `other` is this table but for the value under `name`: the
    /// same names at the same places, and the same values under all other
    /// names.
    pub open spec fn same_but(&self, other: &ConnectMap<T>, name: Seq<char>) -> bool {
        &&& other.names@ == self.names@
        &&& other.values@.len() == self.values@.len()
        &&& forall|i: int|
            0 <= i < self.values@.len() && self.names@[i]@ != name ==> other.values@[i]
                == self.values@[i]
    }

    /// In a well-formed table a name stands at one place only.
    pub proof fn lemma_position(&self, name: Seq<char>, at: int)
        requires
            self.wf(),
            0 <= at < self.names@.len(),
            self.names@[at]@ == name,
        ensures
            self.contains(name),
            self.position(name) == at,
    {
        let chosen = self.position(name);
        if chosen < at {
            assert(self.names@[chosen]@ != self.names@[at]@);
        } else if at < chosen {
            assert(self.names@[at]@ != self.names@[chosen]@);
        }
    }

    /// An empty table.
    pub fn new() -> (table: ConnectMap<T>)
        ensures
            table.wf(),
            table.names@.len() == 0,
            forall|name: Seq<char>| !table.contains(name),
    {
        ConnectMap { names: Vec::new(), values: Vec::new() }
    }

    /// The place of `name` in the table, if the table holds it.
    pub fn find(&self, name: &String) -> (found: Option<usize>)
        requires
            self.wf(),
        ensures
            found is Some == self.contains(name@),
            found matches Some(at) ==> at < self.names@.len() && self.names@[at as int]@ == name@
                && at == self.position(name@),
    {
        let mut at: usize = 0;
        while at < self.names.len()
            invariant
                self.wf(),
                at <= self.names@.len(),
                forall|i: int| 0 <= i < at ==> self.names@[i]@ != name@,
            decreases self.names@.len() - at,
        {
            if self.names[at] == *name {
                proof {
                    self.lemma_position(name@, at as int);
                }
                return Some(at);
            }
            at = at + 1;
        }
        None
    }

    /// Puts `value` into the table under `name`, unless the table holds
    /// something under that name already: then nothing changes. The result
    /// says whether the value went in.
    pub fn insert(&mut self, name: String, value: T) -> (inserted: bool)
        requires
            old(self).wf(),
        ensures
            final(self).wf(),
            inserted == !old(self).contains(name@),
            !inserted ==> *final(self) == *old(self),
            inserted ==> final(self).names@ == old(self).names@.push(name) && final(self).values@
                == old(self).values@.push(value),
            inserted ==> final(self).contains(name@) && final(self).value(name@) == value,
    {
        match self.find(&name) {
            Some(_) => false,
            None => {
                let ghost key = name@;
                self.names.push(name);
                self.values.push(value);
                proof {
                    self.lemma_position(key, self.names@.len() - 1);
                }
                true
            },
        }
    }

    /// Takes the value under `name` out of the table.
    pub fn remove(&mut self, name: &String) -> (removed: Option<T>)
        requires
            old(self).wf(),
        ensures
            final(self).wf(),
            removed == (if old(self).contains(name@) {
                Some(old(self).value(name@))
            } else {
                None
            }),
            !final(self).contains(name@),
            forall|other: Seq<char>|
                other != name@ ==> final(self).contains(other) == old(self).contains(other),
            forall|other: Seq<char>|
                other != name@ && old(self).contains(other)
                    ==> final(self).value(other) == old(self).value(other),
    {
        match self.find(name) {
            None => {
                None
            },
            Some(at) => {
                let _ = self.names.remove(at);
                let value = self.values.remove(at);
                proof {
                    let before = *old(self);
                    let after = *self;
                    assert forall|i: int, j: int|
                        0 <= i < j < after.names@.len() implies after.names@[i]@
                        != after.names@[j]@ by {
                        let from_i = if i < at { i } else { i + 1 };
                        let from_j = if j < at { j } else { j + 1 };
                        assert(after.names@[i] == before.names@[from_i]);
                        assert(after.names@[j] == before.names@[from_j]);
                    }
                    assert forall|other: Seq<char>| other != name@ implies after.contains(other)
                        == before.contains(other) && (before.contains(other) ==> after.value(other)
                        == before.value(other)) by {
                        if before.contains(other) {
                            let place = before.position(other);
                            let moved = if place < at { place } else { place - 1 };
                            assert(after.names@[moved] == before.names@[place]);
                            after.lemma_position(other, moved);
                        }
                        if after.contains(other) {
                            let place = after.position(other);
                            let origin = if place < at { place } else { place + 1 };
                            assert(after.names@[place] == before.names@[origin]);
                            before.lemma_position(other, origin);
                        }
                    }
                    if after.contains(name@) {
                        let place = after.position(name@);
                        let origin = if place < at { place } else { place + 1 };
                        assert(after.names@[place] == before.names@[origin]);
                        before.lemma_position(name@, origin);
                    }
                }
                Some(value)
            },
        }
    }
}

} // verus!

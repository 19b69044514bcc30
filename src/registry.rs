//! The process-wide registry of children: it maps each child's unique name
//! to the locator of its backing device. It does not own the children; the
//! nexus that holds a child governs its lifecycle.
use vstd::prelude::*;

use crate::child::ChildError;

verus! {

/// Whether `name` is registered in `entries`.
pub open spec fn registered(entries: Seq<(Seq<char>, Seq<char>)>, name: Seq<char>) -> bool {
    exists|i: int| 0 <= i < entries.len() && entries[i].0 == name
}

/// The position of `name` in `entries`.
pub open spec fn entry_index(entries: Seq<(Seq<char>, Seq<char>)>, name: Seq<char>) -> int {
    choose|i: int| 0 <= i < entries.len() && entries[i].0 == name
}

struct InventoryEntry {
    name: String,
    uri: String,
}

/// Children by unique name, each with the locator of its device.
pub struct Inventory {
    entries: Vec<InventoryEntry>,
}

impl Inventory {
    /// The (name, locator) pairs, in order of registration.
    pub closed spec fn entries(&self) -> Seq<(Seq<char>, Seq<char>)> {
        self.entries@.map_values(|e: InventoryEntry| (e.name@, e.uri@))
    }

    pub closed spec fn wf(&self) -> bool {
        forall|i: int, j: int|
            0 <= i < self.entries@.len() && 0 <= j < self.entries@.len() && i != j
                ==> self.entries@[i].name@ != self.entries@[j].name@
    }

    /// An empty registry.
    pub fn new() -> (r: Inventory)
        ensures
            r.wf(),
            r.entries() == Seq::<(Seq<char>, Seq<char>)>::empty(),
    {
        let r = Inventory { entries: Vec::new() };
        assert(r.entries() =~= Seq::<(Seq<char>, Seq<char>)>::empty());
        r
    }

    fn find(&self, name: &String) -> (r: Option<usize>)
        requires
            self.wf(),
        ensures
            r.is_none() <==> !registered(self.entries(), name@),
            r matches Some(i) ==> i < self.entries().len() && self.entries()[i as int].0 == name@
                && entry_index(self.entries(), name@) == i,
    {
        let mut i: usize = 0;
        while i < self.entries.len()
            invariant
                self.wf(),
                i <= self.entries@.len(),
                forall|k: int| 0 <= k < i ==> self.entries()[k].0 != name@,
            decreases self.entries@.len() - i,
        {
            if self.entries[i].name == *name {
                assert(self.entries()[i as int].0 == name@);
                proof {
                    let j = entry_index(self.entries(), name@);
                    assert(self.entries@[j].name@ == self.entries@[i as int].name@);
                }
                return Some(i);
            }
            i = i + 1;
        }
        proof {
            if registered(self.entries(), name@) {
                let j = choose|j: int| 0 <= j < self.entries().len() && self.entries()[j].0 == name@;
                assert(self.entries()[j].0 == name@);
            }
        }
        None
    }

    /// Registers a child; its name must not be registered yet.
    pub fn insert(&mut self, name: String, uri: String) -> (r: Result<(), ChildError>)
        requires
            old(self).wf(),
        ensures
            final(self).wf(),
            registered(old(self).entries(), name@) ==> (r matches Err(ChildError::AlreadyExists { name: n })
                && n@ == name@) && final(self).entries() == old(self).entries(),
            !registered(old(self).entries(), name@) ==> r.is_ok() && final(self).entries() == old(
                self).entries().push((name@, uri@)),
    {
        if self.find(&name).is_some() {
            return Err(ChildError::AlreadyExists { name });
        }
        let ghost old_entries = self.entries@;
        let ghost pair = (name@, uri@);
        self.entries.push(InventoryEntry { name, uri });
        assert(self.entries() =~= old(self).entries().push(pair));
        assert forall|i: int, j: int|
            0 <= i < self.entries@.len() && 0 <= j < self.entries@.len() && i != j
                implies self.entries@[i].name@ != self.entries@[j].name@ by {
            let n = old_entries.len() as int;
            if i == n {
                assert(old(self).entries()[j].0 == self.entries@[j].name@);
            } else if j == n {
                assert(old(self).entries()[i].0 == self.entries@[i].name@);
            }
        }
        Ok(())
    }

    /// The locator of the named child.
    pub fn lookup(&self, name: &String) -> (r: Option<String>)
        requires
            self.wf(),
        ensures
            r.is_some() <==> registered(self.entries(), name@),
            r matches Some(u) ==> u@ == self.entries()[entry_index(self.entries(), name@)].1,
    {
        match self.find(name) {
            Some(i) => Some(self.entries[i].uri.clone()),
            None => None,
        }
    }

    /// Takes the named child out of the registry; its locator is returned.
    pub fn take(&mut self, name: &String) -> (r: Option<String>)
        requires
            old(self).wf(),
        ensures
            final(self).wf(),
            r.is_some() <==> registered(old(self).entries(), name@),
            r.is_none() ==> final(self).entries() == old(self).entries(),
            r matches Some(u) ==> u@ == old(self).entries()[entry_index(old(self).entries(), name@)].1
                && final(self).entries() == old(self).entries().remove(entry_index(old(self).entries(), name@)),
            !registered(final(self).entries(), name@),
    {
        match self.find(name) {
            Some(i) => {
                let ghost old_entries = self.entries@;
                let e = self.entries.remove(i);
                assert(self.entries() =~= old(self).entries().remove(i as int));
                assert forall|a: int, b: int|
                    0 <= a < self.entries@.len() && 0 <= b < self.entries@.len() && a != b
                        implies self.entries@[a].name@ != self.entries@[b].name@ by {
                    let a0 = if a < i { a } else { a + 1 };
                    let b0 = if b < i { b } else { b + 1 };
                    assert(self.entries@[a] == old_entries[a0]);
                    assert(self.entries@[b] == old_entries[b0]);
                }
                proof {
                    if registered(self.entries(), name@) {
                        let j = choose|j: int| 0 <= j < self.entries().len() && self.entries()[j].0 == name@;
                        let j0 = if j < i { j } else { j + 1 };
                        assert(self.entries@[j] == old_entries[j0]);
                        assert(old_entries[i as int].name@ == name@);
                    }
                }
                Some(e.uri)
            },
            None => None,
        }
    }

    /// Empties the registry.
    pub fn drop_all(&mut self)
        ensures
            final(self).wf(),
            final(self).entries() == Seq::<(Seq<char>, Seq<char>)>::empty(),
    {
        self.entries = Vec::new();
        assert(self.entries() =~= Seq::<(Seq<char>, Seq<char>)>::empty());
    }
}

} // verus!

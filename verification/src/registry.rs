use vstd::prelude::*;

use crate::id::Id;

verus! {

/// Items kept in insertion order, each under an identifier; an item whose
/// identifier is already present is not added again.
pub struct IdRegistry<T> {
    entries: Vec<(Id, T)>,
}

impl<T> IdRegistry<T> {
    pub closed spec fn entries(&self) -> Seq<(Id, T)> {
        self.entries@
    }

    pub open spec fn has_id(&self, id: Id) -> bool {
        exists|i: int| 0 <= i < self.entries().len() && (#[trigger] self.entries()[i]).0 == id
    }

    /// The position of the first entry under `id`.
    pub open spec fn first_index(&self, id: Id) -> int {
        choose|i: int| 0 <= i < self.entries().len() && (#[trigger] self.entries()[i]).0 == id
            && forall|j: int| 0 <= j < i ==> (#[trigger] self.entries()[j]).0 != id
    }

    pub fn new() -> (r: Self)
        ensures
            r.entries().len() == 0,
    {
        IdRegistry { entries: Vec::new() }
    }

    pub fn len(&self) -> (n: usize)
        ensures
            n == self.entries().len(),
    {
        self.entries.len()
    }

    fn find_index(&self, id: Id) -> (r: Option<usize>)
        ensures
            match r {
                Some(i) => i < self.entries().len() && self.entries()[i as int].0 == id
                    && forall|j: int| 0 <= j < i ==> (#[trigger] self.entries()[j]).0 != id,
                None => !self.has_id(id),
            },
    {
        let mut i: usize = 0;
        while i < self.entries.len()
            invariant
                i <= self.entries@.len(),
                forall|j: int| 0 <= j < i ==> (#[trigger] self.entries@[j]).0 != id,
            decreases self.entries@.len() - i,
        {
            if self.entries[i].0 == id {
                return Some(i);
            }
            i = i + 1;
        }
        None
    }

    /// Adds `item` under `id` unless an entry already has that identifier;
    /// returns `id` either way.
    pub fn insert(&mut self, id: Id, item: T) -> (r: Id)
        ensures
            r == id,
            old(self).has_id(id) ==> final(self).entries() == old(self).entries(),
            !old(self).has_id(id) ==> final(self).entries() == old(self).entries().push((id, item)),
    {
        match self.find_index(id) {
            Some(_) => {},
            None => {
                self.entries.push((id, item));
            },
        }
        id
    }

    /// The first item kept under `id`.
    pub fn get(&self, id: Id) -> (r: &T)
        requires
            self.has_id(id),
        ensures
            *r == self.entries()[self.first_index(id)].1,
    {
        match self.find_index(id) {
            Some(i) => {
                proof { self.lemma_first_index(id, i as int); }
                &self.entries[i].1
            },
            None => {
                proof { assert(false); }
                &self.entries[0].1
            },
        }
    }

    /// A mutable borrow of the first item kept under `id`.
    pub fn get_mut(&mut self, id: Id) -> (r: &mut T)
        requires
            old(self).has_id(id),
        ensures
            *r == old(self).entries()[old(self).first_index(id)].1,
            final(self).entries() == old(self).entries().update(
                old(self).first_index(id),
                (id, *final(r)),
            ),
    {
        match self.find_index(id) {
            Some(i) => {
                proof { self.lemma_first_index(id, i as int); }
                &mut self.entries[i].1
            },
            None => {
                proof { assert(false); }
                &mut self.entries[0].1
            },
        }
    }

    /// Every item, in insertion order.
    pub fn items(&self) -> (items: Vec<&T>)
        ensures
            items@.len() == self.entries().len(),
            forall|i: int| 0 <= i < items@.len() ==> *(#[trigger] items@[i]) == self.entries()[i].1,
    {
        let mut items: Vec<&T> = Vec::new();
        let mut i: usize = 0;
        while i < self.entries.len()
            invariant
                i <= self.entries@.len(),
                items@.len() == i,
                forall|j: int| 0 <= j < i ==> *(#[trigger] items@[j]) == self.entries@[j].1,
            decreases self.entries@.len() - i,
        {
            items.push(&self.entries[i].1);
            i = i + 1;
        }
        items
    }

    proof fn lemma_first_index(&self, id: Id, i: int)
        requires
            0 <= i < self.entries().len(),
            self.entries()[i].0 == id,
            forall|j: int| 0 <= j < i ==> (#[trigger] self.entries()[j]).0 != id,
        ensures
            self.first_index(id) == i,
    {
        let c = self.first_index(id);
        assert(0 <= c < self.entries().len() && self.entries()[c].0 == id
            && forall|j: int| 0 <= j < c ==> (#[trigger] self.entries()[j]).0 != id);
        if c < i {
            assert(self.entries()[c].0 != id);
        }
        if i < c {
            assert(self.entries()[i].0 != id);
        }
    }
}

/// An item kept under an identifier that was not present before is what the
/// registry gives back for that identifier.
pub proof fn law_registry_get_after_insert<T>(before: IdRegistry<T>, after: IdRegistry<T>, id: Id, item: T)
    requires
        !before.has_id(id),
        after.entries() == before.entries().push((id, item)),
    ensures
        after.has_id(id),
        after.entries()[after.first_index(id)].1 == item,
{
    let n = before.entries().len() as int;
    assert(after.entries()[n].0 == id);
    assert forall|j: int| 0 <= j < n implies (#[trigger] after.entries()[j]).0 != id by {
        assert(after.entries()[j] == before.entries()[j]);
    }
    after.lemma_first_index(id, n);
}

} // verus!

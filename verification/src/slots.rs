use vstd::prelude::*;

verus! {

/// One slot of a [`SlotArena`]: the item stored there, if any, and how many
/// times the slot has been filled.
pub struct Slot<T> {
    pub item: Option<T>,
    pub generation: usize,
}

/// A fixed number of slots handed out from a free list.  A reference to an item
/// is its slot index together with the slot's generation at the time of the
/// insertion; a reference whose generation does not match resolves to nothing.
pub struct SlotArena<T> {
    slots: Vec<Slot<T>>,
    free_indices: Vec<usize>,
}

impl<T> SlotArena<T> {
    /// Number of slots.
    pub closed spec fn capacity(&self) -> nat {
        self.slots@.len()
    }

    /// The free list; the next insertion takes its last element.
    pub closed spec fn free(&self) -> Seq<usize> {
        self.free_indices@
    }

    /// The item held in slot `i`.
    pub closed spec fn item(&self, i: int) -> Option<T> {
        self.slots@[i].item
    }

    /// The generation of slot `i`.
    pub closed spec fn generation(&self, i: int) -> nat {
        self.slots@[i].generation as nat
    }

    /// What a reference `(index, generation)` resolves to.
    pub open spec fn lookup(&self, index: int, generation: int) -> Option<T> {
        if 0 <= index < self.capacity() && self.generation(index) == generation {
            self.item(index)
        } else {
            None
        }
    }

    /// Well-formedness: the free list names each empty slot exactly once, and a
    /// slot that has been filled holds its item under generation one.
    pub closed spec fn wf(&self) -> bool {
        &&& forall|k: int| 0 <= k < self.free_indices@.len() ==> #[trigger] self.free_indices@[k] < self.slots@.len()
        &&& self.free_indices@.no_duplicates()
        &&& forall|i: int| 0 <= i < self.slots@.len() ==>
                (self.free_indices@.contains(i as usize) <==> #[trigger] self.slots@[i].generation == 0)
        &&& forall|i: int| 0 <= i < self.slots@.len() ==> #[trigger] self.slots@[i].generation <= 1
        &&& forall|i: int| 0 <= i < self.slots@.len() ==>
                (#[trigger] self.slots@[i].item.is_some() <==> self.slots@[i].generation == 1)
    }

    /// Creates `capacity` empty slots; the free list hands them out in
    /// increasing index order.
    pub fn new(capacity: usize) -> (arena: Self)
        ensures
            arena.wf(),
            arena.capacity() == capacity,
            arena.free() == Seq::new(capacity as nat, |k: int| (capacity - 1 - k) as usize),
            forall|i: int| 0 <= i < capacity ==> #[trigger] arena.item(i) is None && arena.generation(i) == 0,
    {
        let mut slots: Vec<Slot<T>> = Vec::new();
        let mut i: usize = 0;
        while i < capacity
            invariant
                i <= capacity,
                slots@.len() == i,
                forall|j: int| 0 <= j < i ==> (#[trigger] slots@[j]).item is None && slots@[j].generation == 0,
            decreases capacity - i,
        {
            slots.push(Slot { item: None, generation: 0 });
            i = i + 1;
        }
        let mut free_indices: Vec<usize> = Vec::new();
        let mut k: usize = 0;
        while k < capacity
            invariant
                k <= capacity,
                free_indices@ == Seq::new(k as nat, |j: int| (capacity - 1 - j) as usize),
            decreases capacity - k,
        {
            free_indices.push(capacity - 1 - k);
            k = k + 1;
        }
        let arena = SlotArena { slots, free_indices };
        assert forall|i: int| 0 <= i < arena.slots@.len() implies
            (arena.free_indices@.contains(i as usize) <==> #[trigger] arena.slots@[i].generation == 0) by {
            let k = capacity - 1 - i;
            assert(arena.free_indices@[k] == i as usize);
        }
        arena
    }

    /// Number of slots still free.
    pub fn free_count(&self) -> (n: usize)
        ensures
            n == self.free().len(),
    {
        self.free_indices.len()
    }

    /// Stores `item` in the slot at the end of the free list and returns the
    /// slot index and its new generation.
    pub fn insert(&mut self, item: T) -> (r: (usize, usize))
        requires
            old(self).wf(),
            old(self).free().len() > 0,
        ensures
            final(self).wf(),
            final(self).capacity() == old(self).capacity(),
            r.0 == old(self).free().last(),
            r.1 == 1,
            final(self).free() == old(self).free().drop_last(),
            r.0 < old(self).capacity(),
            final(self).item(r.0 as int) == Some(item),
            final(self).lookup(r.0 as int, r.1 as int) == Some(item),
            final(self).generation(r.0 as int) == 1,
            old(self).generation(r.0 as int) == 0,
            old(self).item(r.0 as int) is None,
            forall|i: int| 0 <= i < old(self).capacity() && i != r.0 ==>
                final(self).item(i) == old(self).item(i) && final(self).generation(i) == old(self).generation(i),
    {
        let ghost old_free = self.free_indices@;
        let index = match self.free_indices.pop() {
            Some(index) => index,
            None => {
                proof { assert(false); }
                0
            },
        };
        assert(old_free[old_free.len() - 1] == index);
        assert(old_free.contains(index));
        assert(self.slots@[index as int].generation == 0);
        assert(self.slots@[index as int].item.is_some() <==> self.slots@[index as int].generation == 1);
        let generation = self.slots[index].generation + 1;
        self.slots[index] = Slot { item: Some(item), generation };
        let slot_count = self.slots.len();
        proof {
            assert(self.free_indices@ == old_free.drop_last());
            assert forall|i: int| 0 <= i < self.slots@.len() implies
                (self.free_indices@.contains(i as usize) <==> #[trigger] self.slots@[i].generation == 0) by {
                if i == index as int {
                    if self.free_indices@.contains(i as usize) {
                        let k = choose|k: int| 0 <= k < self.free_indices@.len() && self.free_indices@[k] == i as usize;
                        assert(old_free[k] == old_free[old_free.len() - 1]);
                    }
                } else {
                    if old_free.contains(i as usize) {
                        let k = choose|k: int| 0 <= k < old_free.len() && old_free[k] == i as usize;
                        assert(i < slot_count);
                        assert(k != old_free.len() - 1);
                        assert(self.free_indices@[k] == i as usize);
                    }
                }
            }
        }
        (index, generation)
    }

    /// Empties the arena, handing back what every slot held, in slot order.
    pub fn drain_items(&mut self) -> (items: Vec<Option<T>>)
        requires
            old(self).wf(),
        ensures
            final(self).wf(),
            final(self).capacity() == 0,
            items@ == Seq::new(old(self).capacity(), |i: int| old(self).item(i)),
    {
        let ghost old_items = Seq::new(self.slots@.len(), |i: int| self.slots@[i].item);
        let mut reversed: Vec<Option<T>> = Vec::new();
        let n = self.slots.len();
        while self.slots.len() > 0
            invariant
                self.slots@.len() + reversed@.len() == n,
                n == old_items.len(),
                forall|i: int| 0 <= i < self.slots@.len() ==> #[trigger] self.slots@[i].item == old_items[i],
                forall|k: int| 0 <= k < reversed@.len() ==> #[trigger] reversed@[k] == old_items[n - 1 - k],
            decreases self.slots@.len(),
        {
            match self.slots.pop() {
                Some(slot) => reversed.push(slot.item),
                None => {},
            }
        }
        let mut items: Vec<Option<T>> = Vec::new();
        while reversed.len() > 0
            invariant
                reversed@.len() + items@.len() == n,
                n == old_items.len(),
                forall|k: int| 0 <= k < reversed@.len() ==> #[trigger] reversed@[k] == old_items[n - 1 - k],
                forall|i: int| 0 <= i < items@.len() ==> #[trigger] items@[i] == old_items[i],
            decreases reversed@.len(),
        {
            match reversed.pop() {
                Some(item) => items.push(item),
                None => {},
            }
        }
        self.free_indices = Vec::new();
        assert(items@ =~= old_items);
        items
    }

    /// In a well-formed arena a slot is empty exactly while its generation is
    /// zero, and no generation goes past one.
    pub proof fn lemma_slot_state(&self, i: int)
        requires
            self.wf(),
            0 <= i < self.capacity(),
        ensures
            self.generation(i) == 0 <==> self.item(i) is None,
            self.generation(i) <= 1,
    {
        assert(self.slots@[i].item.is_some() <==> self.slots@[i].generation == 1);
        assert(self.slots@[i].generation <= 1);
    }

    pub proof fn lemma_free_distinct(&self)
        requires
            self.wf(),
        ensures
            self.free().no_duplicates(),
    {
    }

    /// Resolves a reference: the item of slot `index` when the generation
    /// matches, nothing otherwise.
    pub fn get(&self, index: usize, generation: usize) -> (r: Option<&T>)
        requires
            index < self.capacity(),
        ensures
            match r {
                Some(item) => self.lookup(index as int, generation as int) == Some(*item),
                None => self.lookup(index as int, generation as int) is None,
            },
    {
        let slot = &self.slots[index];
        if slot.generation == generation {
            match &slot.item {
                Some(item) => Some(item),
                None => None,
            }
        } else {
            None
        }
    }
}

} // verus!

use vstd::prelude::*;

use crate::buffers_pool::BufferReference;

verus! {

/// One buffer per frame in flight, used in turn, with the bytes gathered for
/// the current one.
pub struct SwappableBuffer {
    current_buffer_index: usize,
    buffers: Vec<BufferReference>,
    data_to_write: Vec<u8>,
}

impl SwappableBuffer {
    pub closed spec fn current(&self) -> int {
        self.current_buffer_index as int
    }

    pub closed spec fn buffers(&self) -> Seq<BufferReference> {
        self.buffers@
    }

    pub closed spec fn data(&self) -> Seq<u8> {
        self.data_to_write@
    }

    /// The current index names a buffer, or is zero when there is none.
    pub closed spec fn wf(&self) -> bool {
        self.current_buffer_index < self.buffers@.len() || (self.buffers@.len() == 0 && self.current_buffer_index == 0)
    }

    /// Starts at the first buffer with nothing gathered.
    pub fn new(buffers: Vec<BufferReference>) -> (s: Self)
        ensures
            s.wf(),
            s.current() == 0,
            s.buffers() == buffers@,
            s.data().len() == 0,
    {
        SwappableBuffer { current_buffer_index: 0, buffers, data_to_write: Vec::new() }
    }

    /// Moves on to the next buffer, wrapping around after the last, and
    /// forgets the gathered bytes.
    pub fn next_buffer(&mut self)
        requires
            old(self).wf(),
        ensures
            final(self).wf(),
            final(self).buffers() == old(self).buffers(),
            final(self).current() == (if old(self).current() + 1 >= old(self).buffers().len() {
                0
            } else {
                old(self).current() + 1
            }),
            final(self).data().len() == 0,
    {
        let buffer_count = self.buffers.len();
        assert(self.current_buffer_index < buffer_count || self.current_buffer_index == 0);
        self.current_buffer_index = self.current_buffer_index + 1;
        if self.current_buffer_index >= self.buffers.len() {
            self.current_buffer_index = 0;
        }
        self.data_to_write.clear();
    }

    /// The buffer of the current frame.
    pub fn get_current_buffer(&self) -> (r: BufferReference)
        requires
            self.wf(),
            self.buffers().len() > 0,
        ensures
            r == self.buffers()[self.current()],
    {
        self.buffers[self.current_buffer_index]
    }

    pub fn get_objects_to_write_as_slice(&self) -> (bytes: &[u8])
        ensures
            bytes@ == self.data(),
    {
        self.data_to_write.as_slice()
    }

    /// Appends the bytes of one object and returns the position of the last
    /// byte gathered.
    pub fn write_data_to_current_buffer(&mut self, object_bytes: &[u8]) -> (last: usize)
        requires
            old(self).data().len() + object_bytes@.len() > 0,
        ensures
            final(self).data() == old(self).data() + object_bytes@,
            last == final(self).data().len() - 1,
            final(self).current() == old(self).current(),
            final(self).buffers() == old(self).buffers(),
            old(self).wf() ==> final(self).wf(),
    {
        let ghost old_data = self.data_to_write@;
        let mut i: usize = 0;
        while i < object_bytes.len()
            invariant
                i <= object_bytes@.len(),
                self.data_to_write@ == old_data + object_bytes@.subrange(0, i as int),
                self.current_buffer_index == old(self).current_buffer_index,
                self.buffers@ == old(self).buffers@,
            decreases object_bytes@.len() - i,
        {
            self.data_to_write.push(object_bytes[i]);
            i = i + 1;
            assert(object_bytes@.subrange(0, i as int) == object_bytes@.subrange(0, i - 1 as int).push(object_bytes@[i - 1]));
        }
        assert(object_bytes@.subrange(0, object_bytes@.len() as int) == object_bytes@);
        self.data_to_write.len() - 1
    }

    /// Forgets the gathered bytes.
    pub fn clear_objects_to_write(&mut self)
        ensures
            final(self).data().len() == 0,
            final(self).current() == old(self).current(),
            final(self).buffers() == old(self).buffers(),
            old(self).wf() ==> final(self).wf(),
    {
        self.data_to_write.clear();
    }
}

/// Stepping through `n` buffers `n` times comes back to the buffer one
/// started from.
pub proof fn law_next_buffer_cycles(n: int, start: int)
    requires
        0 <= start < n,
    ensures
        next_index_after(n, start, n as nat) == start,
{
    lemma_next_index_after(n, start, n as nat);
    vstd::arithmetic::div_mod::lemma_mod_add_multiples_vanish(start, n);
    vstd::arithmetic::div_mod::lemma_small_mod(start as nat, n as nat);
    assert(n + start == start + n);
}

/// The index reached from `start` after `k` steps among `n` buffers.
pub open spec fn next_index_after(n: int, start: int, k: nat) -> int
    decreases k,
{
    if k == 0 {
        start
    } else {
        let prev = next_index_after(n, start, (k - 1) as nat);
        if prev + 1 >= n { 0 } else { prev + 1 }
    }
}

proof fn lemma_next_index_after(n: int, start: int, k: nat)
    requires
        0 <= start < n,
    ensures
        next_index_after(n, start, k) == (start + k) % n,
    decreases k,
{
    if k == 0 {
        vstd::arithmetic::div_mod::lemma_small_mod(start as nat, n as nat);
    } else {
        lemma_next_index_after(n, start, (k - 1) as nat);
        let a = start + k - 1;
        let prev = a % n;
        vstd::arithmetic::div_mod::lemma_mod_bound(a, n);
        vstd::arithmetic::div_mod::lemma_mod_bound(a + 1, n);
        vstd::arithmetic::div_mod::lemma_mod_adds(a, 1, n);
        if prev + 1 >= n {
            vstd::arithmetic::div_mod::lemma_fundamental_div_mod(a, n);
            let q = a / n;
            assert(a + 1 == (q + 1) * n) by (nonlinear_arith)
                requires a == n * q + prev, prev + 1 == n;
            vstd::arithmetic::div_mod::lemma_mod_multiples_basic(q + 1, n);
        } else {
            vstd::arithmetic::div_mod::lemma_small_mod(1, n as nat);
        }
    }
}

} // verus!

//! Bounded FIFO ring buffer for audio samples. One slot is kept free,
//! so a buffer of capacity `c` holds at most `c - 1` elements: full and
//! empty states stay distinguishable.
//!
//! `write` returns how many elements were actually stored (everything,
//! when the free room suffices) and `read` hands elements back in the
//! exact order they were written: the FIFO/no-loss law of the queue is
//! the contract of these two operations.

use vstd::prelude::*;

verus! {

/// Index of the `k`-th occupied slot, counting from `rp`, in a cyclic
/// buffer of `cap` slots (for `rp < cap` and `k <= cap`).
pub open spec fn ring_slot(rp: int, k: int, cap: int) -> int {
    if rp + k < cap {
        rp + k
    } else {
        rp + k - cap
    }
}

/// How many of `incoming` elements a ring holding `stored` of `cap`
/// slots accepts: everything, unless only `cap - 1 - stored` fit.
pub open spec fn ring_write_count(cap: int, stored: int, incoming: int) -> int {
    if incoming <= cap - 1 - stored {
        incoming
    } else {
        cap - 1 - stored
    }
}

pub struct RingBuffer<T> {
    buffer: Vec<T>,
    capacity: usize,
    write_pos: usize,
    read_pos: usize,
}

impl<T> RingBuffer<T> {
    /// Number of elements currently stored.
    closed spec fn spec_count(&self) -> int {
        if self.write_pos >= self.read_pos {
            self.write_pos - self.read_pos
        } else {
            self.capacity - self.read_pos + self.write_pos
        }
    }

    /// Internal consistency: positions in range, backing store sized to
    /// the capacity. Constructors establish it; operations keep it.
    pub closed spec fn wf(&self) -> bool {
        &&& self.capacity >= 1
        &&& self.buffer.len() == self.capacity
        &&& self.write_pos < self.capacity
        &&& self.read_pos < self.capacity
    }

    /// Total number of slots; at most `spec_capacity() - 1` elements fit.
    pub closed spec fn spec_capacity(&self) -> int {
        self.capacity as int
    }
}

impl<T> View for RingBuffer<T> {
    type V = Seq<T>;

    closed spec fn view(&self) -> Seq<T> {
        Seq::new(
            self.spec_count() as nat,
            |k: int| self.buffer[ring_slot(self.read_pos as int, k, self.capacity as int)],
        )
    }
}

impl<T: Copy> RingBuffer<T> {
    /// A fresh, empty ring of `capacity` slots, all holding `fill`.
    pub fn new(capacity: usize, fill: T) -> (r: Self)
        requires
            capacity >= 1,
        ensures
            r.wf(),
            r@ == Seq::<T>::empty(),
            r.spec_capacity() == capacity,
    {
        let mut buffer: Vec<T> = Vec::new();
        let mut i: usize = 0;
        while i < capacity
            invariant
                i <= capacity,
                buffer.len() == i,
            decreases capacity - i,
        {
            buffer.push(fill);
            i = i + 1;
        }
        let r = RingBuffer { buffer, capacity, write_pos: 0, read_pos: 0 };
        proof {
            assert(r@ =~= Seq::<T>::empty());
        }
        r
    }

    /// Current fill level.
    pub fn available(&self) -> (n: usize)
        requires
            self.wf(),
        ensures
            n == self@.len(),
    {
        if self.write_pos >= self.read_pos {
            self.write_pos - self.read_pos
        } else {
            self.capacity - self.read_pos + self.write_pos
        }
    }

    /// Append as much of `data` as fits, leaving one slot free; returns
    /// how many elements were stored. The stored prefix keeps its
    /// order: no element is lost as long as the room suffices.
    pub fn write(&mut self, data: &[T]) -> (n: usize)
        requires
            old(self).wf(),
        ensures
            final(self).wf(),
            n == ring_write_count(
                old(self).spec_capacity(),
                old(self)@.len() as int,
                data@.len() as int,
            ),
            final(self)@ == old(self)@ + data@.subrange(0, n as int),
            final(self).spec_capacity() == old(self).spec_capacity(),
    {
        let used = self.available();
        let space = self.capacity - 1 - used;
        let to_write = if data.len() <= space {
            data.len()
        } else {
            space
        };
        let ghost orig = *self;
        let mut i: usize = 0;
        while i < to_write
            invariant
                i <= to_write,
                orig.wf(),
                self.wf(),
                to_write + orig@.len() <= orig.spec_capacity() - 1,
                to_write <= data@.len(),
                self.capacity == orig.capacity,
                self.read_pos == orig.read_pos,
                self.buffer.len() == orig.buffer.len(),
                self.spec_count() == orig@.len() + i,
                self.write_pos == ring_slot(
                    orig.read_pos as int,
                    orig@.len() + i,
                    orig.capacity as int,
                ),
                self@ == orig@ + data@.subrange(0, i as int),
            decreases to_write - i,
        {
            let ghost before = *self;
            let v = data[i];
            self.buffer.set(self.write_pos, v);
            self.write_pos = if self.write_pos + 1 == self.capacity {
                0
            } else {
                self.write_pos + 1
            };
            proof {
                assert forall|k: int| 0 <= k < self@.len() implies self@[k] == (before@.push(
                    data@[i as int],
                ))[k] by {
                    if k < before@.len() {
                        assert(ring_slot(before.read_pos as int, k, before.capacity as int)
                            != ring_slot(
                            before.read_pos as int,
                            before@.len() as int,
                            before.capacity as int,
                        ));
                    }
                }
                assert(self@ =~= before@.push(data@[i as int]));
                assert(before@.push(data@[i as int]) =~= orig@ + data@.subrange(0, i + 1));
            }
            i = i + 1;
        }
        proof {
            assert(self@ == orig@ + data@.subrange(0, to_write as int));
        }
        to_write
    }

    /// Remove and return the oldest elements, at most `max` of them, in
    /// the order they were written.
    pub fn read(&mut self, max: usize) -> (r: Vec<T>)
        requires
            old(self).wf(),
        ensures
            final(self).wf(),
            r@.len() == if max <= old(self)@.len() {
                max as int
            } else {
                old(self)@.len() as int
            },
            r@ == old(self)@.subrange(0, r@.len() as int),
            final(self)@ == old(self)@.skip(r@.len() as int),
            final(self).spec_capacity() == old(self).spec_capacity(),
    {
        let used = self.available();
        let to_read = if max <= used {
            max
        } else {
            used
        };
        let ghost orig = *self;
        let mut out: Vec<T> = Vec::new();
        let mut i: usize = 0;
        while i < to_read
            invariant
                i <= to_read,
                orig.wf(),
                self.wf(),
                to_read <= orig@.len(),
                self.capacity == orig.capacity,
                self.write_pos == orig.write_pos,
                self.buffer == orig.buffer,
                self.spec_count() == orig@.len() - i,
                self.read_pos == ring_slot(orig.read_pos as int, i as int, orig.capacity as int),
                out@ == orig@.subrange(0, i as int),
                self@ == orig@.skip(i as int),
            decreases to_read - i,
        {
            let ghost before = *self;
            let v = self.buffer[self.read_pos];
            out.push(v);
            self.read_pos = if self.read_pos + 1 == self.capacity {
                0
            } else {
                self.read_pos + 1
            };
            proof {
                assert(v == orig@[i as int]);
                assert(out@ =~= orig@.subrange(0, i + 1));
                assert(self@ =~= orig@.skip(i + 1));
            }
            i = i + 1;
        }
        out
    }
}

/// The queue loses nothing and keeps order: as long as the total
/// written stays within `capacity - 1` of the total read, a write
/// stores its whole input behind the current contents, and reading it
/// all back yields exactly the old contents followed by that input.
pub proof fn lemma_ring_fifo_no_loss<T>(cap: int, stored: Seq<T>, incoming: Seq<T>)
    requires
        cap >= 1,
        stored.len() + incoming.len() <= cap - 1,
    ensures
        ring_write_count(cap, stored.len() as int, incoming.len() as int)
            == incoming.len() as int,
        (stored + incoming).subrange(0, stored.len() as int) == stored,
        (stored + incoming).skip(stored.len() as int) == incoming,
{
    assert((stored + incoming).subrange(0, stored.len() as int) =~= stored);
    assert((stored + incoming).skip(stored.len() as int) =~= incoming);
}

} // verus!

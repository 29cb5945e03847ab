//! A queue of fixed capacity that overwrites its oldest item when it is full.
use vstd::prelude::*;

verus! {

/// Position of the `i`-th item of a ring that starts at `start` and has
/// `cap` slots.
pub open spec fn slot_index(start: int, i: int, cap: int) -> int {
    if start + i >= cap {
        start + i - cap
    } else {
        start + i
    }
}

/// A queue that holds at most as many items as it has slots.
pub struct RingBuffer<T> {
    slots: Vec<Option<T>>,
    start: usize,
    len: usize,
}

/// Walks through the items of a ring buffer, oldest first.
pub struct RingIter<'a, T> {
    buffer: &'a RingBuffer<T>,
    offset: usize,
}

impl<T> View for RingBuffer<T> {
    type V = Seq<T>;

    /// The items in the queue, oldest first.
    closed spec fn view(&self) -> Seq<T> {
        Seq::new(
            self.len as nat,
            |i: int| self.slots@[slot_index(self.start as int, i, self.slots@.len() as int)]->0,
        )
    }
}

impl<T> RingBuffer<T> {
    /// The number of slots.
    pub closed spec fn capacity(&self) -> nat {
        self.slots@.len()
    }

    /// The buffer's invariant.
    pub closed spec fn wf(&self) -> bool {
        &&& self.len <= self.slots@.len()
        &&& (self.start < self.slots@.len() || (self.start == 0 && self.slots@.len() == 0))
        &&& forall|i: int|
            0 <= i < self.len ==> (#[trigger] self.slots@[slot_index(
                self.start as int,
                i,
                self.slots@.len() as int,
            )]) is Some
    }

    /// What the invariant means for the view.
    pub proof fn lemma_len(&self)
        requires
            self.wf(),
        ensures
            self@.len() <= self.capacity(),
    {
    }

    /// An empty buffer with `size` slots.
    pub fn new(size: usize) -> (rb: RingBuffer<T>)
        ensures
            rb.wf(),
            rb.capacity() == size,
            rb@ == Seq::<T>::empty(),
    {
        let mut slots: Vec<Option<T>> = Vec::new();
        let mut i: usize = 0;
        while i < size
            invariant
                i <= size,
                slots@.len() == i,
            decreases size - i,
        {
            slots.push(None);
            i = i + 1;
        }
        let rb = RingBuffer { slots, start: 0, len: 0 };
        assert(rb@ =~= Seq::<T>::empty());
        rb
    }

    /// The number of items in the queue.
    pub fn len(&self) -> (n: usize)
        ensures
            n == self@.len(),
    {
        self.len
    }

    /// The slot after `start`.
    fn following(&self) -> (next: usize)
        requires
            self.wf(),
            self.slots@.len() > 0,
        ensures
            next == slot_index(self.start as int, 1, self.slots@.len() as int),
            next < self.slots@.len(),
    {
        if self.start >= self.slots.len() - 1 {
            0
        } else {
            self.start + 1
        }
    }

    /// Adds `item` at the end of the queue. A full buffer gives up its
    /// oldest item for it and returns that; a buffer without slots takes
    /// nothing in.
    pub fn enqueue(&mut self, item: T) -> (overwritten: Option<T>)
        requires
            old(self).wf(),
        ensures
            final(self).wf(),
            final(self).capacity() == old(self).capacity(),
            old(self).capacity() == 0 ==> overwritten is None && final(self)@ == old(self)@,
            old(self).capacity() > 0 && old(self)@.len() < old(self).capacity() ==> overwritten is None
                && final(self)@ == old(self)@.push(item),
            old(self).capacity() > 0 && old(self)@.len() == old(self).capacity() ==> overwritten
                == Some(old(self)@[0]) && final(self)@ == old(self)@.drop_first().push(item),
    {
        let cap = self.slots.len();
        if cap == 0 {
            return None;
        }
        let ghost before = self@;
        let ghost old_slots = self.slots@;
        let ghost start = self.start as int;
        if self.len == cap {
            let next = self.following();
            let mut slot: Option<T> = Some(item);
            core::mem::swap(&mut slot, &mut self.slots[self.start]);
            self.start = next;
            proof {
                assert(old_slots[slot_index(start, 0, cap as int)] is Some);
                assert forall|i: int| 0 <= i < self.len implies (#[trigger] self.slots@[slot_index(
                    self.start as int,
                    i,
                    cap as int,
                )]) is Some by {
                    if i < cap - 1 {
                        assert(old_slots[slot_index(start, i + 1, cap as int)] is Some);
                    }
                }
                assert(self@ =~= before.drop_first().push(item));
            }
            slot
        } else {
            let idx = if self.len >= cap - self.start {
                self.len - (cap - self.start)
            } else {
                self.start + self.len
            };
            self.slots[idx] = Some(item);
            self.len = self.len + 1;
            proof {
                assert forall|i: int| 0 <= i < self.len implies (#[trigger] self.slots@[slot_index(
                    self.start as int,
                    i,
                    cap as int,
                )]) is Some by {
                    if i < self.len - 1 {
                        assert(old_slots[slot_index(start, i, cap as int)] is Some);
                    }
                }
                assert(self@ =~= before.push(item));
            }
            None
        }
    }

    /// Takes the oldest item out of the queue.
    pub fn dequeue(&mut self) -> (item: Option<T>)
        requires
            old(self).wf(),
        ensures
            final(self).wf(),
            final(self).capacity() == old(self).capacity(),
            match item {
                Some(v) => old(self)@.len() > 0 && v == old(self)@[0] && final(self)@ == old(self)@.drop_first(),
                None => old(self)@.len() == 0 && final(self)@ == old(self)@,
            },
    {
        if self.len == 0 {
            return None;
        }
        let cap = self.slots.len();
        let ghost before = self@;
        let ghost old_slots = self.slots@;
        let ghost start = self.start as int;
        let next = self.following();
        let mut slot: Option<T> = None;
        core::mem::swap(&mut slot, &mut self.slots[self.start]);
        self.start = next;
        self.len = self.len - 1;
        proof {
            assert(old_slots[slot_index(start, 0, cap as int)] is Some);
            assert forall|i: int| 0 <= i < self.len implies (#[trigger] self.slots@[slot_index(
                self.start as int,
                i,
                cap as int,
            )]) is Some by {
                assert(old_slots[slot_index(start, i + 1, cap as int)] is Some);
            }
            assert(self@ =~= before.drop_first());
        }
        slot
    }

    /// The item that would be dequeued next.
    pub fn peek(&self) -> (item: Option<&T>)
        requires
            self.wf(),
        ensures
            match item {
                Some(v) => self@.len() > 0 && *v == self@[0],
                None => self@.len() == 0,
            },
    {
        if self.len == 0 {
            return None;
        }
        assert(self.slots@[slot_index(self.start as int, 0, self.slots@.len() as int)] is Some);
        self.slots[self.start].as_ref()
    }

    /// The item at position `i` of the queue, counted from the oldest.
    pub fn get(&self, i: usize) -> (item: Option<&T>)
        requires
            self.wf(),
        ensures
            match item {
                Some(v) => i < self@.len() && *v == self@[i as int],
                None => i >= self@.len(),
            },
    {
        if i >= self.len {
            return None;
        }
        let cap = self.slots.len();
        let idx = if i >= cap - self.start {
            i - (cap - self.start)
        } else {
            self.start + i
        };
        assert(self.slots@[slot_index(self.start as int, i as int, cap as int)] is Some);
        self.slots[idx].as_ref()
    }

    /// A walker at the oldest item.
    pub fn iter(&self) -> (it: RingIter<'_, T>)
        requires
            self.wf(),
        ensures
            it.wf(),
            it.items() == self@,
            it.position() == 0,
    {
        RingIter { buffer: self, offset: 0 }
    }
}

impl<'a, T> RingIter<'a, T> {
    /// The items that the walker walks through.
    pub closed spec fn items(&self) -> Seq<T> {
        self.buffer@
    }

    /// How many items the walker has passed.
    pub closed spec fn position(&self) -> nat {
        self.offset as nat
    }

    /// The walker's invariant.
    pub closed spec fn wf(&self) -> bool {
        self.buffer.wf() && self.offset <= self.buffer@.len()
    }

    /// The next item, oldest first.
    pub fn next(&mut self) -> (item: Option<&'a T>)
        requires
            old(self).wf(),
        ensures
            final(self).wf(),
            final(self).items() == old(self).items(),
            match item {
                Some(v) => old(self).position() < old(self).items().len() && *v == old(self).items()[old(self).position() as int] && final(self).position() == old(self).position() + 1,
                None => old(self).position() == old(self).items().len() && final(self).position()
                    == old(self).position(),
            },
    {
        let buffer: &'a RingBuffer<T> = self.buffer;
        match buffer.get(self.offset) {
            Some(v) => {
                self.offset = self.offset + 1;
                Some(v)
            },
            None => None,
        }
    }
}

} // verus!

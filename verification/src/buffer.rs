//! The ring buffer itself: a fixed run of slots and two cursors.

use vstd::prelude::*;
use vstd::arithmetic::div_mod::{lemma_mod_self_0, lemma_small_mod};
use crate::drain::IntoIter;
use crate::model::{after_pop, after_push, front};

verus! {

/// The slots and the two cursors. Each slot is either empty or holds one
/// element; `start` is the slot of the oldest element and `end` the slot
/// that the next push writes. No count is kept: where the two cursors meet,
/// the slot at `start` tells a full buffer from an empty one.
///
/// One operation moves a cursor and writes a slot in separate steps, and the
/// states in between are not well formed. So well-formedness is a plain
/// predicate here, and `RingBuffer` holds it as its type invariant around
/// whole operations.
struct Ring<T> {
    store: Vec<Option<T>>,
    start: usize,
    end: usize,
    buffer_len: usize,
}

impl<T> Ring<T> {
    /// How many slots lie between `start` and slot `j`, walking forward and
    /// wrapping at the end of the store.
    spec fn offset(&self, j: int) -> int {
        if j >= self.start {
            j - self.start
        } else {
            j - self.start + self.buffer_len
        }
    }

    /// The slot that lies `i` slots after `start`.
    spec fn slot(&self, i: int) -> int {
        if self.start + i < self.buffer_len {
            self.start + i
        } else {
            self.start + i - self.buffer_len
        }
    }

    /// The number of live elements, read off the cursors and the slot at
    /// `start`.
    spec fn occupied(&self) -> nat {
        if self.buffer_len == 0 {
            0
        } else if self.start == self.end {
            if self.store@[self.start as int] is Some {
                self.buffer_len as nat
            } else {
                0
            }
        } else if self.start < self.end {
            (self.end - self.start) as nat
        } else {
            (self.buffer_len - self.start + self.end) as nat
        }
    }

    /// The occupied slots are exactly the run of `occupied()` slots that
    /// begins at `start` and wraps around the end of the store.
    spec fn wf(&self) -> bool {
        &&& self.store@.len() == self.buffer_len
        &&& self.buffer_len == 0 ==> self.start == 0 && self.end == 0
        &&& self.buffer_len > 0 ==> self.start < self.buffer_len && self.end < self.buffer_len
        &&& forall|j: int|
            0 <= j < self.buffer_len ==> ((#[trigger] self.store@[j]) is Some <==> self.offset(j)
                < self.occupied())
    }

    /// The live elements, oldest first.
    spec fn contents(&self) -> Seq<T> {
        Seq::new(self.occupied(), |i: int| self.store@[self.slot(i)]->Some_0)
    }

    /// The cursor that follows `i`, wrapping at the end of the store.
    fn next_index(&self, i: usize) -> (next: usize)
        requires
            i < self.buffer_len,
        ensures
            next == if i + 1 == self.buffer_len { 0 } else { i + 1 },
        no_unwind
    {
        proof {
            if i + 1 == self.buffer_len {
                lemma_mod_self_0(self.buffer_len as int);
            } else {
                lemma_small_mod((i + 1) as nat, self.buffer_len as nat);
            }
        }
        (i + 1) % self.buffer_len
    }

    /// The slot that lies `i` slots after `start`.
    fn slot_index(&self, i: usize) -> (j: usize)
        requires
            self.start < self.buffer_len,
            i < self.buffer_len,
        ensures
            j == self.slot(i as int),
            j < self.buffer_len,
    {
        if i < self.buffer_len - self.start {
            self.start + i
        } else {
            i - (self.buffer_len - self.start)
        }
    }

    /// The number of live elements.
    fn len(&self) -> (len: usize)
        requires
            self.wf(),
        ensures
            len == self.occupied(),
            len <= self.buffer_len,
    {
        if self.buffer_len == 0 {
            0
        } else if self.start == self.end {
            if let Some(_) = self.store[self.start] {
                self.buffer_len
            } else {
                0
            }
        } else if self.start < self.end {
            self.end - self.start
        } else {
            self.buffer_len - self.start + self.end
        }
    }

    /// Writes `val` into the slot at `end`, after moving `start` off that
    /// slot where the buffer is full. It cannot unwind, so no caller ever
    /// sees the states in between.
    fn push(&mut self, val: T)
        requires
            old(self).wf(),
        ensures
            final(self).wf(),
            final(self).buffer_len == old(self).buffer_len,
            final(self).contents() == after_push(
                old(self).contents(),
                old(self).buffer_len as nat,
                val,
            ),
            old(self).buffer_len == 0 ==> *final(self) == *old(self),
        no_unwind
    {
        if self.buffer_len == 0 {
            return ;
        }
        if self.start == self.end {
            if let Some(_) = self.store[self.start] {
                self.start = self.next_index(self.start);
            }
        }
        self.store[self.end] = Some(val);
        self.end = self.next_index(self.end);
    }

    /// Empties the slot at `start` and moves `start` on, unless that slot is
    /// empty already. It cannot unwind either.
    fn pop(&mut self) -> (ret: Option<T>)
        requires
            old(self).wf(),
        ensures
            final(self).wf(),
            final(self).buffer_len == old(self).buffer_len,
            ret == front(old(self).contents()),
            final(self).contents() == after_pop(old(self).contents()),
            old(self).contents().len() == 0 ==> *final(self) == *old(self),
        no_unwind
    {
        if self.buffer_len == 0 {
            return None;
        }
        if let None = self.store[self.start] {
            None
        } else {
            let mut ret: Option<T> = None;
            core::mem::swap(&mut self.store[self.start], &mut ret);
            self.start = self.next_index(self.start);
            ret
        }
    }
}

/// A first-in, first-out queue over a fixed number of slots. It never grows:
/// once every slot is taken, a push discards the oldest element to make room
/// for the newest.
///
/// Its view is the sequence of the live elements, oldest first.
pub struct RingBuffer<T> {
    ring: Ring<T>,
}

impl<T> View for RingBuffer<T> {
    type V = Seq<T>;

    /// The live elements, oldest first.
    closed spec fn view(&self) -> Seq<T> {
        self.ring.contents()
    }
}

impl<T> RingBuffer<T> {
    /// Every buffer is well formed: the elements it holds lie in one run of
    /// slots that begins at the oldest and wraps around the end of the store.
    #[verifier::type_invariant]
    pub closed spec fn wf(&self) -> bool {
        self.ring.wf()
    }

    /// The number of slots, fixed when the buffer is made.
    pub closed spec fn capacity(&self) -> nat {
        self.ring.buffer_len as nat
    }

    /// The live elements never outnumber the slots.
    pub proof fn lemma_len_within_capacity(&self)
        requires
            self.wf(),
        ensures
            self@.len() <= self.capacity(),
    {
    }

    /// Makes an empty buffer of `n` slots. A buffer without slots is legal:
    /// it discards whatever is pushed.
    pub fn with_capacity(n: usize) -> (buf: RingBuffer<T>)
        ensures
            buf@ == Seq::<T>::empty(),
            buf.capacity() == n,
    {
        let mut v: Vec<Option<T>> = Vec::with_capacity(n);
        for i in 0..n
            invariant
                v@.len() == i,
                forall|j: int| 0 <= j < i ==> (#[trigger] v@[j]) is None,
        {
            v.push(None);
        }
        RingBuffer { ring: Ring { store: v, start: 0, end: 0, buffer_len: n } }
    }

    /// Inserts `val` as the newest element. A full buffer first drops its
    /// oldest element; a buffer without slots drops `val` itself and stays
    /// untouched.
    pub fn push(&mut self, val: T)
        ensures
            final(self).capacity() == old(self).capacity(),
            final(self)@ == after_push(old(self)@, old(self).capacity(), val),
            final(self)@.len() <= final(self).capacity(),
            old(self).capacity() == 0 ==> *final(self) == *old(self),
    {
        proof {
            use_type_invariant(&*self);
        }
        self.ring.push(val);
    }

    /// Removes the oldest element and returns it. An empty buffer returns
    /// `None` and stays untouched.
    pub fn pop(&mut self) -> (ret: Option<T>)
        ensures
            final(self).capacity() == old(self).capacity(),
            ret == front(old(self)@),
            final(self)@ == after_pop(old(self)@),
            final(self)@.len() <= final(self).capacity(),
            old(self)@.len() == 0 ==> ret is None && *final(self) == *old(self),
    {
        proof {
            use_type_invariant(&*self);
        }
        self.ring.pop()
    }
}

impl<T> IntoIterator for RingBuffer<T> {
    type Item = T;

    type IntoIter = IntoIter<T>;

    /// Drains the buffer: the iterator owns what the buffer held and yields
    /// it oldest first, each element once.
    fn into_iter(self) -> (iter: IntoIter<T>)
        ensures
            iter@ == self@,
    {
        proof {
            use_type_invariant(&self);
        }
        let RingBuffer { mut ring } = self;
        let len = ring.len();
        let ghost contents = ring.contents();
        // Walk the occupied run backwards, from the newest element to the
        // oldest, and move each element out of its slot.
        let mut newest_first: Vec<T> = Vec::with_capacity(len);
        let mut k: usize = len;
        while k > 0
            invariant
                k <= len <= ring.buffer_len,
                ring.store@.len() == ring.buffer_len,
                ring.start < ring.buffer_len || len == 0,
                contents.len() == len,
                forall|i: int|
                    0 <= i < k ==> (#[trigger] ring.store@[ring.slot(i)]) == Some(contents[i]),
                newest_first@.len() == len - k,
                forall|m: int|
                    0 <= m < len - k ==> (#[trigger] newest_first@[m]) == contents[len - 1 - m],
            decreases k,
        {
            k -= 1;
            let j = ring.slot_index(k);
            let ghost before = ring;
            let mut taken: Option<T> = None;
            core::mem::swap(&mut ring.store[j], &mut taken);
            assert forall|i: int| 0 <= i < k implies (#[trigger] ring.store@[ring.slot(i)])
                == Some(contents[i]) by {
                assert(before.store@[before.slot(i)] == Some(contents[i]));
            }
            newest_first.push(taken.unwrap());
        }
        IntoIter::from_newest_first(newest_first)
    }
}

} // verus!

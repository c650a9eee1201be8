//! The queues that hold pending messages: an unbounded FIFO queue guarded by
//! its owner, an unbounded linked FIFO queue, and a bounded ring queue.

use vstd::prelude::*;
use vstd::arithmetic::power2::lemma2_to64;
use vstd::arithmetic::power2::lemma_pow2_pos;
use vstd::arithmetic::power2::lemma_pow2_strictly_increases;
use vstd::arithmetic::power2::lemma_pow2_unfold;
use vstd::arithmetic::power2::pow2;

verus! {

/// An unbounded first-in-first-out queue: items leave in the order they
/// were put in.
pub struct SafeQueue<T> {
    vec: Vec<T>,
}

impl<T> View for SafeQueue<T> {
    type V = Seq<T>;

    closed spec fn view(&self) -> Seq<T> {
        self.vec@
    }
}

impl<T> SafeQueue<T> {
    /// An empty queue. The argument is a sizing hint and does not bound
    /// the queue.
    pub fn new(buf: usize) -> (r: SafeQueue<T>)
        ensures
            r@ == Seq::<T>::empty(),
    {
        SafeQueue { vec: Vec::new() }
    }

    /// Append an item at the back.
    pub fn put(&mut self, t: T)
        requires
            old(self)@.len() < usize::MAX,
        ensures
            final(self)@ == old(self)@.push(t),
    {
        self.vec.push(t);
    }

    /// Take the item at the front, if any.
    pub fn get(&mut self) -> (r: Option<T>)
        ensures
            old(self)@.len() == 0 ==> r is None && final(self)@ == old(self)@,
            old(self)@.len() > 0 ==> r == Some(old(self)@[0])
                && final(self)@ == old(self)@.drop_first(),
    {
        if self.vec.len() < 1 {
            None
        } else {
            let t = self.vec.remove(0);
            assert(final(self)@ =~= old(self)@.drop_first());
            Some(t)
        }
    }

    /// How many items are queued.
    pub fn len(&self) -> (r: usize)
        ensures
            r == self@.len(),
    {
        self.vec.len()
    }
}

/// An unbounded first-in-first-out queue that grows link by link; it behaves
/// as [`SafeQueue`] does.
pub struct InfiniteLinkQueue<T> {
    vec: Vec<T>,
}

impl<T> View for InfiniteLinkQueue<T> {
    type V = Seq<T>;

    closed spec fn view(&self) -> Seq<T> {
        self.vec@
    }
}

impl<T> InfiniteLinkQueue<T> {
    /// An empty queue.
    pub fn new() -> (r: InfiniteLinkQueue<T>)
        ensures
            r@ == Seq::<T>::empty(),
    {
        InfiniteLinkQueue { vec: Vec::new() }
    }

    /// Append an item at the back.
    pub fn put(&mut self, t: T)
        requires
            old(self)@.len() < usize::MAX,
        ensures
            final(self)@ == old(self)@.push(t),
    {
        self.vec.push(t);
    }

    /// Take the item at the front, if any.
    pub fn get(&mut self) -> (r: Option<T>)
        ensures
            old(self)@.len() == 0 ==> r is None && final(self)@ == old(self)@,
            old(self)@.len() > 0 ==> r == Some(old(self)@[0])
                && final(self)@ == old(self)@.drop_first(),
    {
        if self.vec.len() < 1 {
            None
        } else {
            let t = self.vec.remove(0);
            assert(final(self)@ =~= old(self)@.drop_first());
            Some(t)
        }
    }

    /// How many items are queued.
    pub fn len(&self) -> (r: usize)
        ensures
            r == self@.len(),
    {
        self.vec.len()
    }
}

/// One slot of the ring queue.
pub struct SizedRingQueueItem<T> {
    /// The queued item, if the slot is occupied.
    pub value: Option<T>,
}

/// A bounded first-in-first-out queue over a ring of `2^bsize` slots.
pub struct SizedRingQueue<T> {
    slots: Vec<SizedRingQueueItem<T>>,
    rx: usize,
    len: usize,
}

impl<T> SizedRingQueue<T> {
    /// How many items the queue can hold.
    pub closed spec fn spec_capacity(self) -> nat {
        self.slots@.len()
    }

    /// The slot that holds the `i`-th queued item: slots are read from `rx`
    /// on, wrapping round the ring.
    spec fn ring_index(self, i: int) -> int {
        if self.rx + i < self.slots@.len() {
            self.rx + i
        } else {
            self.rx + i - self.slots@.len()
        }
    }

    /// The slots are a ring: reads start at `rx`, and the `len` occupied
    /// slots follow it round the ring.
    pub closed spec fn wf(self) -> bool {
        &&& self.slots@.len() >= 1
        &&& self.rx < self.slots@.len()
        &&& self.len <= self.slots@.len()
        &&& forall|i: int| 0 <= i < self.len ==>
            self.slots@[#[trigger] self.ring_index(i)].value is Some
    }

    /// The queued items, front first.
    pub closed spec fn contents(self) -> Seq<T> {
        Seq::new(self.len as nat, |i: int| self.slots@[self.ring_index(i)].value->Some_0)
    }

    /// An empty queue of `2^bsize` slots; the ring must be one a `Vec` can
    /// hold.
    pub fn new(bsize: usize) -> (r: SizedRingQueue<T>)
        requires
            pow2(bsize as nat) <= usize::MAX,
        ensures
            r.wf(),
            r.contents() == Seq::<T>::empty(),
            r.spec_capacity() == pow2(bsize as nat),
    {
        proof {
            lemma2_to64();
        }
        let mut cap: usize = 1;
        let mut i: usize = 0;
        while i < bsize
            invariant
                i <= bsize,
                cap == pow2(i as nat),
                pow2(bsize as nat) <= usize::MAX,
            decreases bsize - i,
    {
            proof {
                lemma_pow2_unfold((i + 1) as nat);
                if i + 1 < bsize {
                    lemma_pow2_strictly_increases((i + 1) as nat, bsize as nat);
                }
            }
            cap = cap * 2;
            i = i + 1;
        }
        let mut slots: Vec<SizedRingQueueItem<T>> = Vec::new();
        let mut j: usize = 0;
        while j < cap
            invariant
                j <= cap,
                slots@.len() == j,
            decreases cap - j,
        {
            slots.push(SizedRingQueueItem { value: None });
            j = j + 1;
        }
        proof {
            lemma_pow2_pos(bsize as nat);
        }
        let r = SizedRingQueue { slots, rx: 0, len: 0 };
        proof {
            assert(r.contents() =~= Seq::<T>::empty());
        }
        r
    }

    /// How many items are queued.
    pub fn len(&self) -> (r: usize)
        ensures
            r == self.contents().len(),
    {
        self.len
    }

    /// How many items the queue can hold.
    pub fn capacity(&self) -> (r: usize)
        ensures
            r == self.spec_capacity(),
    {
        self.slots.len()
    }

    /// Append an item at the back; the queue must not be full.
    pub fn put(&mut self, t: T)
        requires
            old(self).wf(),
            old(self).contents().len() < old(self).spec_capacity(),
        ensures
            final(self).wf(),
            final(self).spec_capacity() == old(self).spec_capacity(),
            final(self).contents() == old(self).contents().push(t),
    {
        let n = self.slots.len();
        let pos = if self.len < n - self.rx {
            self.rx + self.len
        } else {
            self.len - (n - self.rx)
        };
        assert(pos == old(self).ring_index(old(self).len as int));
        self.slots[pos] = SizedRingQueueItem { value: Some(t) };
        self.len = self.len + 1;
        proof {
            assert forall|i: int| 0 <= i < self.len implies
                self.slots@[#[trigger] self.ring_index(i)].value is Some
            by {
                if i < self.len - 1 {
                    assert(old(self).slots@[old(self).ring_index(i)].value is Some);
                }
            }
            assert(final(self).contents() =~= old(self).contents().push(t));
        }
    }

    /// Take the item at the front, if any.
    pub fn get(&mut self) -> (r: Option<T>)
        requires
            old(self).wf(),
        ensures
            final(self).wf(),
            final(self).spec_capacity() == old(self).spec_capacity(),
            old(self).contents().len() == 0 ==> r is None
                && final(self).contents() == old(self).contents(),
            old(self).contents().len() > 0 ==> r == Some(old(self).contents()[0])
                && final(self).contents() == old(self).contents().drop_first(),
    {
        if self.len == 0 {
            proof {
                assert(final(self).contents() =~= old(self).contents());
            }
            return None;
        }
        let n = self.slots.len();
        let pos = self.rx;
        let mut slot = SizedRingQueueItem { value: None };
        core::mem::swap(&mut slot, &mut self.slots[pos]);
        proof {
            assert(old(self).ring_index(0) == pos as int);
            assert(old(self).slots@[old(self).ring_index(0)].value is Some);
        }
        let t = match slot.value {
            Some(t) => t,
            None => unreached(),
        };
        self.rx = if pos + 1 < n { pos + 1 } else { 0 };
        self.len = self.len - 1;
        proof {
            assert forall|i: int| 0 <= i < self.len implies
                self.slots@[#[trigger] self.ring_index(i)].value is Some
            by {
                assert(self.ring_index(i) == old(self).ring_index(i + 1));
                assert(old(self).slots@[old(self).ring_index(i + 1)].value is Some);
                assert(old(self).ring_index(i + 1) != old(self).rx);
            }
            assert(final(self).contents() =~= old(self).contents().drop_first());
        }
        Some(t)
    }
}

} // verus!

//! Bounded queues between tasks.

use vstd::prelude::*;

verus! {

/// First-in-first-out queue of at most `N` items.
pub struct MpscRing<T, const N: usize> {
    items: Vec<T>,
}

impl<T, const N: usize> View for MpscRing<T, N> {
    type V = Seq<T>;

    closed spec fn view(&self) -> Seq<T> {
        self.items@
    }
}

impl<T, const N: usize> MpscRing<T, N> {
    pub fn new() -> (r: Self)
        ensures
            r@ == Seq::<T>::empty(),
    {
        MpscRing { items: Vec::new() }
    }

    /// Appends an item unless the queue is full.
    pub fn try_enqueue(&mut self, item: T) -> (r: bool)
        ensures
            r == (old(self)@.len() < N),
            final(self)@ == (if r {
                old(self)@.push(item)
            } else {
                old(self)@
            }),
            old(self)@.len() <= N ==> final(self)@.len() <= N,
    {
        if self.items.len() < N {
            self.items.push(item);
            true
        } else {
            false
        }
    }

    /// Appends an item; a full queue loses its oldest one.
    pub fn enqueue_drop_oldest(&mut self, item: T)
        requires
            0 < N,
        ensures
            final(self)@ == (if old(self)@.len() < N {
                old(self)@.push(item)
            } else {
                old(self)@.drop_first().push(item)
            }),
            old(self)@.len() <= N ==> final(self)@.len() <= N,
    {
        if self.items.len() >= N {
            let _oldest = self.items.remove(0);
            assert(self.items@ =~= old(self).items@.drop_first());
        }
        self.items.push(item);
    }

    /// Takes the oldest item.
    pub fn dequeue(&mut self) -> (r: Option<T>)
        ensures
            r is None <==> old(self)@.len() == 0,
            r is None ==> final(self)@ == old(self)@,
            r is Some ==> r == Some(old(self)@[0]) && final(self)@ == old(self)@.drop_first(),
    {
        if self.items.len() == 0 {
            None
        } else {
            let item = self.items.remove(0);
            assert(self.items@ =~= old(self).items@.drop_first());
            Some(item)
        }
    }

    pub fn len(&self) -> (r: usize)
        ensures
            r == self@.len(),
    {
        self.items.len()
    }

    pub fn is_empty(&self) -> (r: bool)
        ensures
            r == (self@.len() == 0),
    {
        self.items.len() == 0
    }
}

} // verus!

//! A pool of reusable byte buffers.

use crate::bounded::{copy_response, new_response, wipe, Items};
use vstd::prelude::*;

verus! {

/// Number of buffers.
pub const POOL_SIZE: usize = 4;

/// Capacity of a buffer.
pub const BUF_SIZE: usize = 256;

/// The pool.
pub struct GlobalBufferPool {
    used: [bool; 4],
    buffers: [heapless::Vec<u8, 256>; 4],
}

/// The pool as plain values: which buffers are in use, and what they hold.
#[verifier::ext_equal]
pub struct PoolView {
    pub used: Seq<bool>,
    pub buffers: Seq<Seq<u8>>,
}

impl View for GlobalBufferPool {
    type V = PoolView;

    closed spec fn view(&self) -> PoolView {
        PoolView {
            used: self.used@,
            buffers: self.buffers@.map_values(|b: heapless::Vec<u8, 256>| b.items()),
        }
    }
}

/// The first buffer from `i` on that is free, or the number of buffers.
pub open spec fn first_free(used: Seq<bool>, i: int) -> int
    decreases used.len() - i,
{
    if i >= used.len() || !used[i] {
        i
    } else {
        first_free(used, i + 1)
    }
}

/// How many of the first `n` buffers are free.
pub open spec fn free_count(used: Seq<bool>, n: nat) -> nat
    decreases n,
{
    if n == 0 {
        0
    } else {
        free_count(used, (n - 1) as nat) + (if used[n - 1] {
            0nat
        } else {
            1
        })
    }
}

impl GlobalBufferPool {
    pub fn new() -> (r: Self)
        ensures
            r@ == (PoolView {
                used: seq![false, false, false, false],
                buffers: seq![Seq::empty(), Seq::empty(), Seq::empty(), Seq::empty()],
            }),
    {
        let r = GlobalBufferPool {
            used: [false; 4],
            buffers: [new_response(), new_response(), new_response(), new_response()],
        };
        assert(r@.used =~= seq![false, false, false, false]);
        assert(r@.buffers =~= seq![Seq::empty(), Seq::empty(), Seq::empty(), Seq::empty()]);
        r
    }

    /// Takes a free buffer: the first one.
    pub fn acquire(&mut self) -> (r: Option<usize>)
        ensures
            old(self)@.used.len() == POOL_SIZE,
            r is Some <==> first_free(old(self)@.used, 0) < POOL_SIZE,
            r is Some ==> r->0 == first_free(old(self)@.used, 0) && final(self)@ == (PoolView {
                used: old(self)@.used.update(r->0 as int, true),
                ..old(self)@
            }),
            r is None ==> final(self)@ == old(self)@,
    {
        let mut i: usize = 0;
        while i < POOL_SIZE && self.used[i]
            invariant
                i <= POOL_SIZE,
                first_free(self@.used, 0) == first_free(self@.used, i as int),
                *self == *old(self),
            decreases POOL_SIZE - i,
        {
            i += 1;
        }
        if i < POOL_SIZE {
            self.used[i] = true;
            assert(self@.used =~= old(self)@.used.update(i as int, true));
            Some(i)
        } else {
            None
        }
    }

    /// Gives a buffer back.
    pub fn release(&mut self, idx: usize)
        ensures
            final(self)@ == if idx < POOL_SIZE {
                PoolView { used: old(self)@.used.update(idx as int, false), ..old(self)@ }
            } else {
                old(self)@
            },
    {
        if idx < POOL_SIZE {
            self.used[idx] = false;
            assert(self@.used =~= old(self)@.used.update(idx as int, false));
        }
    }

    /// Fills a buffer: it is emptied, then `f` writes to it.
    pub fn write<F: FnOnce(&mut heapless::Vec<u8, 256>)>(&mut self, idx: usize, f: F)
        requires
            idx < POOL_SIZE,
            old(self)@.used[idx as int],
            forall|b: &mut heapless::Vec<u8, 256>|
                (*b).items() == Seq::<u8>::empty() ==> #[trigger] f.requires((b,)),
        ensures
            exists|b: &mut heapless::Vec<u8, 256>| #[trigger]
                f.ensures((b,), ()) && (*b).items() == Seq::<u8>::empty() && final(self)@ == (PoolView {
                    buffers: old(self)@.buffers.update(idx as int, (*final(b)).items()),
                    ..old(self)@
                }),
    {
        let ghost before = self@;
        let b = &mut self.buffers[idx];
        wipe(b);
        f(b);
        assert(self@.buffers =~= before.buffers.update(idx as int, self.buffers@[idx as int].items()));
    }

    /// A copy of a buffer.
    pub fn read(&self, idx: usize) -> (r: Option<heapless::Vec<u8, 256>>)
        requires
            idx < POOL_SIZE,
            self@.used[idx as int],
        ensures
            r is Some && r->0.items() == self@.buffers[idx as int],
    {
        Some(copy_response(&self.buffers[idx]))
    }

    /// Number of free buffers.
    pub fn available(&self) -> (r: usize)
        ensures
            r == free_count(self@.used, POOL_SIZE as nat),
    {
        let mut n: usize = 0;
        let mut i: usize = 0;
        while i < POOL_SIZE
            invariant
                i <= POOL_SIZE,
                n <= i,
                n == free_count(self@.used, i as nat),
            decreases POOL_SIZE - i,
        {
            if !self.used[i] {
                n += 1;
            }
            i += 1;
        }
        n
    }
}

proof fn lemma_first_free(used: Seq<bool>, i: int)
    requires
        0 <= i <= used.len(),
    ensures
        i <= first_free(used, i) <= used.len(),
        first_free(used, i) < used.len() ==> !used[first_free(used, i)],
        forall|j: int| i <= j < first_free(used, i) ==> used[j],
    decreases used.len() - i,
{
    if i < used.len() && used[i] {
        lemma_first_free(used, i + 1);
    }
}

/// A buffer that is handed out was free, and no buffer before it was.
pub proof fn law_first_free_buffer(used: Seq<bool>)
    ensures
        0 <= first_free(used, 0) <= used.len(),
        first_free(used, 0) < used.len() ==> !used[first_free(used, 0)],
        forall|j: int| 0 <= j < first_free(used, 0) ==> used[j],
{
    lemma_first_free(used, 0);
}

proof fn lemma_free_from(used: Seq<bool>, i: int, k: int)
    requires
        0 <= i <= k < used.len(),
        !used[k],
        forall|j: int| i <= j < k ==> used[j],
    ensures
        first_free(used, i) == k,
    decreases k - i,
{
    if i < k {
        lemma_free_from(used, i + 1, k);
    }
}

/// A buffer that is given back right away is the next one handed out.
pub proof fn law_released_buffer_is_reused(used: Seq<bool>)
    requires
        first_free(used, 0) < used.len(),
    ensures
        ({
            let k = first_free(used, 0);
            first_free(used.update(k, true).update(k, false), 0) == k
        }),
{
    let k = first_free(used, 0);
    lemma_first_free(used, 0);
    lemma_free_from(used.update(k, true).update(k, false), 0, k);
}

} // verus!

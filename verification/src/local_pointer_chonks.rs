use vstd::prelude::*;
use crate::list::{ListChonk, SegmentSource};
use crate::pointer_chonks::PointerChonks;

verus! {

/// A recycling pool meant to be owned by one execution context — the
/// surrounding program typically keeps one instance per thread. Unlike the
/// bare pool it never reports failure: a push rejected by a full pool falls
/// back to releasing the block, and a pop from an empty pool falls back to
/// obtaining a fresh one, so callers always make progress.
pub struct LocalPointerChonks<const N: usize> {
    chonks: PointerChonks<N>,
}

impl<const N: usize> LocalPointerChonks<N> {
    /// The underlying pool is consistent and its bound is positive: a pool
    /// that could never hold a block is a programming error, ruled out at
    /// construction.
    pub closed spec fn wf(&self) -> bool {
        &&& self.chonks.wf()
        &&& self.chonks.spec_capacity() > 0
        &&& N > 0
    }

    /// How many recycled blocks are held.
    pub closed spec fn spec_len(&self) -> int {
        self.chonks.spec_len()
    }

    /// The bound on the number of held blocks.
    pub closed spec fn spec_capacity(&self) -> usize {
        self.chonks.spec_capacity()
    }

    /// An empty pool bounded by `cap` blocks.
    pub fn with_capacity(cap: usize) -> (r: Self)
        requires
            N > 0,
            cap > 0,
        ensures
            r.wf(),
            r.spec_len() == 0,
            r.spec_capacity() == cap,
    {
        LocalPointerChonks { chonks: PointerChonks::with_capacity(cap) }
    }

    /// An empty pool with the default bound of `8 * (N + 1)` blocks.
    pub fn with_default_capacity() -> (r: Self)
        requires
            N > 0,
            8 * (N + 1) <= usize::MAX,
        ensures
            r.wf(),
            r.spec_len() == 0,
            r.spec_capacity() == 8 * (N + 1),
    {
        LocalPointerChonks { chonks: PointerChonks::with_default_capacity() }
    }

    /// The current recycled-block count.
    pub fn len(&self) -> (r: usize)
        requires
            self.wf(),
        ensures
            r == self.spec_len(),
    {
        self.chonks.len()
    }

    /// Hands the drained segment to the pool; when the pool is full the
    /// block is simply released instead, so the call always succeeds.
    pub fn push<T>(&mut self, chonk: ListChonk<T, N>)
        requires
            old(self).wf(),
            chonk@.len() == 0,
        ensures
            final(self).wf(),
            final(self).spec_capacity() == old(self).spec_capacity(),
            final(self).spec_len() == (if old(self).spec_len() < old(self).spec_capacity() {
                old(self).spec_len() + 1
            } else {
                old(self).spec_len()
            }),
    {
        proof {
            self.chonks.lemma_wf_facts();
        }
        match self.chonks.push(chonk) {
            Ok(()) => {}
            Err(_) => {
                // Pool full: the rejected block goes back to the heap, which
                // here means dropping it.
            }
        }
    }

    /// Hands the drained segment to the pool; when the pool is full the
    /// block is released through `free` instead.
    pub fn push_custom<T, F: FnOnce(ListChonk<T, N>)>(&mut self, chonk: ListChonk<T, N>, free: F)
        requires
            old(self).wf(),
            chonk@.len() == 0,
            old(self).spec_len() == old(self).spec_capacity() ==> free.requires((chonk,)),
        ensures
            final(self).wf(),
            final(self).spec_capacity() == old(self).spec_capacity(),
            final(self).spec_len() == (if old(self).spec_len() < old(self).spec_capacity() {
                old(self).spec_len() + 1
            } else {
                old(self).spec_len()
            }),
            old(self).spec_len() == old(self).spec_capacity() ==> free.ensures((chonk,), ()),
    {
        proof {
            self.chonks.lemma_wf_facts();
        }
        match self.chonks.push(chonk) {
            Ok(()) => {}
            Err(rejected) => free(rejected),
        }
    }

    /// Fetches a recycled block, reinitialized for element type `T`; when
    /// the pool is empty a fresh segment is taken from the heap instead, so
    /// the call always succeeds.
    pub fn pop<T>(&mut self) -> (r: ListChonk<T, N>)
        requires
            old(self).wf(),
        ensures
            final(self).wf(),
            final(self).spec_capacity() == old(self).spec_capacity(),
            r.fresh(),
            final(self).spec_len() == (if old(self).spec_len() > 0 {
                old(self).spec_len() - 1
            } else {
                0int
            }),
    {
        proof {
            self.chonks.lemma_wf_facts();
        }
        match self.chonks.pop() {
            Some(seg) => seg,
            None => ListChonk::new(),
        }
    }

    /// Fetches a recycled block, reinitialized for element type `T`; when
    /// the pool is empty a segment is obtained through `alloc` instead and
    /// reinitialized the same way.
    pub fn pop_custom<T, A: FnOnce() -> ListChonk<T, N>>(&mut self, alloc: A) -> (r: ListChonk<
        T,
        N,
    >)
        requires
            old(self).wf(),
            old(self).spec_len() == 0 ==> alloc.requires(()),
        ensures
            final(self).wf(),
            final(self).spec_capacity() == old(self).spec_capacity(),
            r.fresh(),
            final(self).spec_len() == (if old(self).spec_len() > 0 {
                old(self).spec_len() - 1
            } else {
                0int
            }),
    {
        proof {
            self.chonks.lemma_wf_facts();
        }
        match self.chonks.pop() {
            Some(seg) => seg,
            None => {
                let mut seg = alloc();
                // Whatever the supplied allocator handed over is wiped to
                // the reinitialized state the pool promises.
                seg.0.data.clear();
                seg.0.header.prev.take();
                seg.0.header.next.take();
                seg
            }
        }
    }
}

/// The pool as a segment source: a list wired to it grows from recycled
/// blocks and shrinks back into them. One pool instance serves lists of
/// every element type.
impl<T, const N: usize> SegmentSource<T, N> for LocalPointerChonks<N> {
    open spec fn inv(&self) -> bool {
        self.wf()
    }

    fn alloc_segment(&mut self) -> (r: ListChonk<T, N>) {
        self.pop()
    }

    fn free_segment(&mut self, seg: ListChonk<T, N>) {
        self.push(seg)
    }
}

} // verus!

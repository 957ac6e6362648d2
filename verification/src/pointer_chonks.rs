use vstd::prelude::*;
use crate::link::Link;
use crate::list::{ListChonk, flat_of, lemma_flat_of_data_eq, lemma_flat_of_len};

verus! {

/// The conventional chunk size of the pool and of the lists it services.
pub const CHONK_SIZE: usize = 32;

/// What a pool chunk stores in its own data slots: each entry stands for one
/// recycled block the pool holds in stashed form. The layout trick being
/// modelled keeps, in a spare chunk's own storage, thin pointers to other
/// spare chunks; every stashed block here is interchangeable, so an entry
/// carries no further information.
pub struct SpareBlock;

/// A chain node of the pool: a segment whose data slots hold stashed spare
/// blocks.
pub type PointerChonk<const N: usize> = ListChonk<SpareBlock, N>;

/// A bounded recycler of spare segments: a chain of [`PointerChonk`]s whose
/// own storage stashes further spare blocks, so the pool itself never touches
/// the general allocator while blocks keep coming. One pool services
/// segments of every thin element type: a recycled segment is reinitialized
/// before it is handed out, so nothing of its former life shows.
pub struct PointerChonks<const N: usize> {
    /// Start of the chain.
    head: Link<usize>,
    /// End of the chain.
    tail: Link<usize>,
    /// All recycled blocks held: chain nodes and stashed entries alike.
    length: usize,
    /// Maximum number of blocks the pool may hold.
    capacity: usize,
    /// The chain nodes, in order from head to tail.
    segs: Vec<PointerChonk<N>>,
}

impl<const N: usize> PointerChonks<N> {
    /// The chain, in order from head to tail.
    pub closed spec fn seg_seq(&self) -> Seq<PointerChonk<N>> {
        self.segs@
    }

    /// How many chain nodes the pool holds.
    pub open spec fn node_count(&self) -> int {
        self.seg_seq().len() as int
    }

    /// How many blocks are stashed inside the chain nodes' own storage.
    pub open spec fn stash_count(&self) -> int {
        flat_of(self.seg_seq()).len() as int
    }

    /// How many recycled blocks the pool holds in all: every chain node
    /// counts, and so does every stashed entry.
    pub open spec fn spec_len(&self) -> int {
        self.node_count() + self.stash_count()
    }

    /// The bound on the number of held blocks.
    pub closed spec fn spec_capacity(&self) -> usize {
        self.capacity
    }

    /// Structural invariant: the stored length agrees with the chain, the
    /// capacity bounds it, every node but the tail is full, and the links,
    /// `head` and `tail` describe the chain in arena order.
    pub closed spec fn wf(&self) -> bool {
        &&& N > 0
        &&& self.length == self.spec_len()
        &&& self.length <= self.capacity
        &&& forall|i: int| 0 <= i < self.node_count() ==> (#[trigger] self.segs@[i]).wf()
        &&& forall|i: int| 0 <= i < self.node_count() - 1 ==> (#[trigger] self.segs@[i])@.len() == N
        &&& forall|i: int|
            0 <= i < self.node_count() ==> (#[trigger] self.segs@[i]).prev_of() == (if i == 0 {
                Option::<usize>::None
            } else {
                Some((i - 1) as usize)
            })
        &&& forall|i: int|
            0 <= i < self.node_count() ==> (#[trigger] self.segs@[i]).next_of() == (if i
                == self.node_count() - 1 {
                Option::<usize>::None
            } else {
                Some((i + 1) as usize)
            })
        &&& self.head.0 == (if self.node_count() == 0 {
            Option::<usize>::None
        } else {
            Some(0usize)
        })
        &&& self.tail.0 == (if self.node_count() == 0 {
            Option::<usize>::None
        } else {
            Some((self.node_count() - 1) as usize)
        })
    }

    /// Facts the invariant guarantees, stated for callers that cannot see
    /// inside it: the chunk size is positive, the pool never holds more
    /// blocks than its capacity, and it holds a chain node exactly when it
    /// holds anything at all.
    pub proof fn lemma_wf_facts(&self)
        requires
            self.wf(),
        ensures
            N > 0,
            0 <= self.spec_len() <= self.spec_capacity(),
            self.spec_len() == 0 <==> self.node_count() == 0,
    {
        if self.node_count() == 0 {
            assert(flat_of(self.seg_seq()).len() == 0);
        }
    }

    /// An empty pool that will hold at most `capacity` blocks. The bound
    /// only limits growth; it changes nothing about how blocks are obtained.
    pub fn with_capacity(capacity: usize) -> (r: Self)
        requires
            N > 0,
        ensures
            r.wf(),
            r.spec_len() == 0,
            r.node_count() == 0,
            r.spec_capacity() == capacity,
    {
        PointerChonks {
            head: Link(None),
            tail: Link(None),
            length: 0,
            capacity,
            segs: Vec::new(),
        }
    }

    /// An empty pool with the default bound of `8 * (N + 1)` blocks: with
    /// stashing, room for eight full chains' worth of spares.
    pub fn with_default_capacity() -> (r: Self)
        requires
            N > 0,
            8 * (N + 1) <= usize::MAX,
        ensures
            r.wf(),
            r.spec_len() == 0,
            r.node_count() == 0,
            r.spec_capacity() == 8 * (N + 1),
    {
        Self::with_capacity(8 * (N + 1))
    }

    pub fn len(&self) -> (r: usize)
        requires
            self.wf(),
        ensures
            r == self.spec_len(),
    {
        self.length
    }

    pub fn capacity(&self) -> (r: usize)
        ensures
            r == self.spec_capacity(),
    {
        self.capacity
    }

    pub fn is_empty(&self) -> (r: bool)
        requires
            self.wf(),
        ensures
            r == (self.spec_len() == 0),
    {
        self.length == 0
    }

    pub fn is_full(&self) -> (r: bool)
        requires
            self.wf(),
        ensures
            r == (self.spec_len() == self.spec_capacity()),
    {
        self.length == self.capacity
    }

    /// How many chain nodes the pool holds right now; the other held blocks
    /// are stashed entries inside these nodes.
    pub fn num_nodes(&self) -> (r: usize)
        ensures
            r == self.node_count(),
    {
        self.segs.len()
    }

    /// Accepts a drained segment of any thin element type for recycling.
    /// When the pool is full the segment comes back unchanged and nothing
    /// moves; otherwise the tail node stashes it as an entry, or, when the
    /// tail is full or absent, its reinitialized block becomes the new tail
    /// node itself.
    pub fn push<T>(&mut self, chonk: ListChonk<T, N>) -> (r: Result<(), ListChonk<T, N>>)
        requires
            old(self).wf(),
            chonk@.len() == 0,
        ensures
            final(self).wf(),
            final(self).spec_capacity() == old(self).spec_capacity(),
            old(self).spec_len() == old(self).spec_capacity() ==> r == Err::<
                (),
                ListChonk<T, N>,
            >(chonk) && *final(self) == *old(self),
            old(self).spec_len() < old(self).spec_capacity() ==> r is Ok
                && final(self).spec_len() == old(self).spec_len() + 1
                && final(self).node_count() == (if old(self).node_count() == 0
                    || old(self).seg_seq().last()@.len() == N {
                    old(self).node_count() + 1
                } else {
                    old(self).node_count()
                })
                && final(self).seg_seq().last()@.len() == (if old(self).node_count() == 0
                    || old(self).seg_seq().last()@.len() == N {
                    0int
                } else {
                    old(self).seg_seq().last()@.len() + 1int
                }),
    {
        // The capacity is checked before anything mutates.
        if self.length == self.capacity {
            return Err(chonk);
        }
        self.length = self.length + 1;
        if self.tail.as_ref().is_some() {
            let mut tail_seg = match self.segs.pop() {
                Some(s) => s,
                None => {
                    // Never reached: a populated tail link means the arena
                    // holds a segment.
                    proof {
                        assert(false);
                    }
                    ListChonk::new()
                }
            };
            match tail_seg.0.push(SpareBlock) {
                Ok(()) => {
                    // The tail has room: the block is held as a stashed
                    // entry, and `chonk` itself is released — its storage is
                    // what the entry stands for.
                    self.segs.push(tail_seg);
                    proof {
                        let pre = old(self).segs@;
                        assert(pre.len() > 0);
                        assert(self.segs@.len() == pre.len());
                        assert(self.segs@.drop_last() =~= pre.drop_last());
                        assert(self.segs@.last()@ == pre.last()@.push(SpareBlock));
                        assert(flat_of(self.segs@) == flat_of(self.segs@.drop_last())
                            + self.segs@.last()@);
                        assert(flat_of(self.segs@) == flat_of(pre.drop_last())
                            + pre.last()@.push(SpareBlock));
                        assert(flat_of(self.segs@).len() == flat_of(pre).len() + 1);
                    }
                    Ok(())
                }
                Err(_) => {
                    // The tail is full: the block itself, reinitialized,
                    // becomes the next chain node.
                    self.segs.push(tail_seg);
                    let new_idx = self.segs.len();
                    let mut node: PointerChonk<N> = ListChonk::new();
                    node.0.header.prev.replace(Link(Some(new_idx - 1)));
                    let mut old_tail = match self.segs.pop() {
                        Some(s) => s,
                        None => {
                            proof {
                                assert(false);
                            }
                            ListChonk::new()
                        }
                    };
                    old_tail.0.header.next.replace(Link(Some(new_idx)));
                    self.segs.push(old_tail);
                    self.segs.push(node);
                    self.tail.replace(Link(Some(new_idx)));
                    proof {
                        let pre = old(self).segs@;
                        let mid = self.segs@.drop_last();
                        assert(mid =~= pre.update(pre.len() - 1, mid.last()));
                        lemma_flat_of_data_eq(mid, pre);
                        assert(flat_of(self.segs@) == flat_of(mid) + self.segs@.last()@);
                        assert(self.segs@.last()@.len() == 0);
                        assert(flat_of(self.segs@) =~= flat_of(pre));
                    }
                    Ok(())
                }
            }
        } else {
            // No chain yet: the reinitialized block is head and tail both.
            let node: PointerChonk<N> = ListChonk::new();
            self.segs.push(node);
            self.tail.replace(Link(Some(0)));
            self.head.replace(Link(Some(0)));
            proof {
                assert(self.segs@.drop_last() =~= Seq::<PointerChonk<N>>::empty());
                assert(flat_of(self.segs@) == flat_of(self.segs@.drop_last())
                    + self.segs@.last()@);
                assert(flat_of(self.segs@).len() == 0);
            }
            Ok(())
        }
    }

    /// Hands out a recycled block as a reinitialized segment for element
    /// type `T`, or nothing when the pool is empty. A stashed entry is
    /// consumed first; when the tail node has none, the tail itself is
    /// detached, the chain rewired, and that block handed out.
    pub fn pop<T>(&mut self) -> (r: Option<ListChonk<T, N>>)
        requires
            old(self).wf(),
        ensures
            final(self).wf(),
            final(self).spec_capacity() == old(self).spec_capacity(),
            old(self).spec_len() == 0 ==> r is None && *final(self) == *old(self),
            old(self).spec_len() > 0 ==> r is Some && r->0.fresh()
                && final(self).spec_len() == old(self).spec_len() - 1
                && final(self).node_count() == (if old(self).seg_seq().last()@.len() > 0 {
                    old(self).node_count()
                } else {
                    old(self).node_count() - 1
                })
                && (final(self).node_count() > 0 ==> final(self).seg_seq().last()@.len() == (
                if old(self).seg_seq().last()@.len() > 0 {
                    old(self).seg_seq().last()@.len() - 1
                } else {
                    N as int
                })),
    {
        if self.tail.as_ref().is_none() {
            return None;
        }
        // The pool shrinks for certain: worst case it gives out its own
        // emptied tail node.
        self.length = self.length - 1;
        let mut tail_seg = match self.segs.pop() {
            Some(s) => s,
            None => {
                // Never reached: a populated tail link means the arena
                // holds a segment.
                proof {
                    assert(false);
                }
                ListChonk::new()
            }
        };
        match tail_seg.0.data.pop() {
            Some(_) => {
                // A stashed entry: its block leaves the pool, reinitialized
                // for its new element type.
                self.segs.push(tail_seg);
                proof {
                    let pre = old(self).segs@;
                    assert(self.segs@.drop_last() =~= pre.drop_last());
                    assert(flat_of(self.segs@) == flat_of(pre.drop_last())
                        + pre.last()@.drop_last());
                    assert(pre.last()@.len() > 0);
                    assert(flat_of(self.segs@).len() == flat_of(pre).len() - 1);
                }
                Some(ListChonk::new())
            }
            None => {
                // No stashed entries: the tail node itself leaves. The new
                // tail is the old tail's predecessor, and it stops pointing
                // forward at the departed block.
                let mut prev = tail_seg.0.header.prev.take();
                self.tail.swap(&mut prev);
                proof {
                    assert(self.segs@ =~= old(self).segs@.drop_last());
                    assert(flat_of(old(self).segs@) == flat_of(self.segs@)
                        + old(self).segs@.last()@);
                }
                if self.segs.len() == 0 {
                    // That was the last block: the head goes too.
                    self.head.take();
                } else {
                    let mut new_tail = match self.segs.pop() {
                        Some(s) => s,
                        None => {
                            proof {
                                assert(false);
                            }
                            ListChonk::new()
                        }
                    };
                    new_tail.0.header.next.take();
                    self.segs.push(new_tail);
                    proof {
                        let pre = old(self).segs@.drop_last();
                        assert(self.segs@ =~= pre.update(pre.len() - 1, self.segs@.last()));
                        lemma_flat_of_data_eq(self.segs@, pre);
                    }
                }
                // The departed block is handed out, reinitialized for its
                // new element type.
                Some(ListChonk::new())
            }
        }
    }
}

} // verus!

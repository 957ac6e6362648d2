use vstd::prelude::*;
use crate::link::Link;
use crate::chonk::Chonk;

verus! {

/// The `{prev, next}` header of a chain node. Each populated link holds the
/// position of a neighbouring segment in the owning structure's arena.
pub struct Links {
    pub prev: Link<usize>,
    pub next: Link<usize>,
}

impl Links {
    /// A header with both links empty.
    pub fn empty() -> (r: Self)
        ensures
            r.prev.0 is None,
            r.next.0 is None,
    {
        Links { prev: Link(None), next: Link(None) }
    }
}

/// A [`Chonk`] whose header links it to neighbouring segments: the node type
/// of the chunked chain.
pub struct ListChonk<T, const N: usize>(pub Chonk<Links, T, N>);

impl<T, const N: usize> View for ListChonk<T, N> {
    type V = Seq<T>;

    open spec fn view(&self) -> Seq<T> {
        self.0.data@
    }
}

impl<T, const N: usize> ListChonk<T, N> {
    /// The backward link, as the arena position it holds.
    pub open spec fn prev_of(&self) -> Option<usize> {
        self.0.header.prev.0
    }

    /// The forward link, as the arena position it holds.
    pub open spec fn next_of(&self) -> Option<usize> {
        self.0.header.next.0
    }

    pub open spec fn wf(&self) -> bool {
        self.0.wf()
    }

    /// A segment in its reinitialized state: no stored values and no links —
    /// exactly how a freshly constructed segment looks.
    pub open spec fn fresh(&self) -> bool {
        &&& self.wf()
        &&& self@.len() == 0
        &&& self.prev_of() is None
        &&& self.next_of() is None
    }

    /// A fresh, unlinked, empty segment.
    pub fn new() -> (r: Self)
        requires
            N > 0,
        ensures
            r.fresh(),
    {
        ListChonk(Chonk::new(Links::empty()))
    }

    pub fn len(&self) -> (r: usize)
        ensures
            r == self@.len(),
    {
        self.0.len()
    }

    pub fn is_empty(&self) -> (r: bool)
        ensures
            r == (self@.len() == 0),
    {
        self.0.is_empty()
    }

    /// Whether the segment hangs in no chain: both links empty.
    pub fn is_detached(&self) -> (r: bool)
        ensures
            r == (self.prev_of() is None && self.next_of() is None),
    {
        self.0.header.prev.as_ref().is_none() && self.0.header.next.as_ref().is_none()
    }
}

/// The allocate/free capability through which a [`List`] grows and shrinks:
/// the seam that lets a caller plug in a recycling pool, or any other backing
/// strategy, in place of plain construction.
pub trait SegmentSource<T, const N: usize>: Sized {
    /// Whatever consistency the source maintains across calls.
    spec fn inv(&self) -> bool;

    /// Produces a reinitialized segment: empty data, empty links.
    fn alloc_segment(&mut self) -> (r: ListChonk<T, N>)
        requires
            old(self).inv(),
            N > 0,
        ensures
            final(self).inv(),
            r.fresh(),
    ;

    /// Takes back a segment whose values have all been popped.
    fn free_segment(&mut self, seg: ListChonk<T, N>)
        requires
            old(self).inv(),
            seg@.len() == 0,
        ensures
            final(self).inv(),
    ;
}

/// The default backing strategy: fresh segments come straight from the
/// general heap, and freed segments are simply released to it.
pub struct DefaultSegmentSource;

impl<T, const N: usize> SegmentSource<T, N> for DefaultSegmentSource {
    open spec fn inv(&self) -> bool {
        true
    }

    fn alloc_segment(&mut self) -> (r: ListChonk<T, N>) {
        ListChonk::new()
    }

    fn free_segment(&mut self, seg: ListChonk<T, N>) {
    }
}

/// The values stored across a run of segments, in storage order: the logical
/// contents of the chain.
pub open spec fn flat_of<T, const N: usize>(ss: Seq<ListChonk<T, N>>) -> Seq<T>
    decreases ss.len(),
{
    if ss.len() == 0 {
        Seq::empty()
    } else {
        flat_of(ss.drop_last()) + ss.last()@
    }
}

/// Two runs of segments holding the same values segment by segment flatten to
/// the same contents, whatever their headers say.
pub proof fn lemma_flat_of_data_eq<T, const N: usize>(
    ss1: Seq<ListChonk<T, N>>,
    ss2: Seq<ListChonk<T, N>>,
)
    requires
        ss1.len() == ss2.len(),
        forall|i: int| 0 <= i < ss1.len() ==> (#[trigger] ss1[i])@ == ss2[i]@,
    ensures
        flat_of(ss1) == flat_of(ss2),
    decreases ss1.len(),
{
    if ss1.len() > 0 {
        lemma_flat_of_data_eq(ss1.drop_last(), ss2.drop_last());
        assert(ss1.last()@ == ss2.last()@);
        assert(flat_of(ss1) == flat_of(ss2));
    } else {
        assert(flat_of(ss1) =~= flat_of(ss2));
    }
}

/// When every segment but the last is full, the flattened length is the
/// number of full segments times `N`, plus whatever the last one holds.
pub proof fn lemma_flat_of_len<T, const N: usize>(ss: Seq<ListChonk<T, N>>)
    requires
        forall|i: int| 0 <= i < ss.len() - 1 ==> (#[trigger] ss[i])@.len() == N,
    ensures
        ss.len() == 0 ==> flat_of(ss).len() == 0,
        ss.len() > 0 ==> flat_of(ss).len() == (ss.len() - 1) * N + ss.last()@.len(),
    decreases ss.len(),
{
    if ss.len() > 0 {
        let dl = ss.drop_last();
        let m = dl.len() as int;
        assert(forall|i: int| 0 <= i < m - 1 ==> (#[trigger] dl[i])@.len() == N);
        lemma_flat_of_len(dl);
        assert(flat_of(ss).len() == flat_of(dl).len() + ss.last()@.len());
        if ss.len() > 1 {
            assert(dl.last()@.len() == N);
            assert(flat_of(dl).len() == (m - 1) * N + N);
            assert((m - 1) * N + N == m * N) by (nonlinear_arith);
        } else {
            assert(flat_of(dl).len() == 0);
            assert(m * N == 0) by (nonlinear_arith)
                requires m == 0,
            ;
        }
    }
}

/// Where every segment but the last is full, value `i` of the flattened
/// contents sits in segment `i / N`, at offset `i % N`.
pub proof fn lemma_flat_of_index<T, const N: usize>(ss: Seq<ListChonk<T, N>>, i: int)
    requires
        N > 0,
        forall|j: int| 0 <= j < ss.len() ==> (#[trigger] ss[j])@.len() <= N,
        forall|j: int| 0 <= j < ss.len() - 1 ==> (#[trigger] ss[j])@.len() == N,
        0 <= i < flat_of(ss).len(),
    ensures
        0 <= i / (N as int) < ss.len(),
        0 <= i % (N as int) < ss[i / (N as int)]@.len(),
        flat_of(ss)[i] == ss[i / (N as int)]@[i % (N as int)],
    decreases ss.len(),
{
    lemma_flat_of_len(ss);
    let k = ss.len() as int;
    let dl = ss.drop_last();
    assert(forall|j: int| 0 <= j < dl.len() ==> (#[trigger] dl[j])@.len() <= N);
    assert(forall|j: int| 0 <= j < dl.len() - 1 ==> (#[trigger] dl[j])@.len() == N);
    lemma_flat_of_len(dl);
    if i < flat_of(dl).len() {
        lemma_flat_of_index(dl, i);
        assert(flat_of(ss)[i] == flat_of(dl)[i]);
    } else {
        let base = flat_of(dl).len() as int;
        assert(flat_of(ss)[i] == ss.last()@[i - base]);
        assert(i / (N as int) == k - 1 && i % (N as int) == i - (k - 1) * N) by (nonlinear_arith)
            requires
                N > 0,
                k >= 1,
                base == (k - 1) * N,
                base <= i,
                i < base + N,
        ;
    }
}

/// A chunked chain of segments forming one logical sequence, optimized for
/// append and pop at the tail. Growth allocates a new tail segment through a
/// [`SegmentSource`]; a pop that drains a segment releases it the same way.
/// An optional capacity bounds the total length; `usize::MAX` means
/// unbounded.
pub struct List<T, const N: usize> {
    head: Link<usize>,
    tail: Link<usize>,
    len: usize,
    cap: usize,
    segs: Vec<ListChonk<T, N>>,
}

impl<T, const N: usize> View for List<T, N> {
    type V = Seq<T>;

    closed spec fn view(&self) -> Seq<T> {
        flat_of(self.segs@)
    }
}

impl<T, const N: usize> List<T, N> {
    /// The chain, in order from head to tail.
    pub closed spec fn seg_seq(&self) -> Seq<ListChonk<T, N>> {
        self.segs@
    }

    /// How many segments the chain holds.
    pub open spec fn seg_count(&self) -> int {
        self.seg_seq().len() as int
    }

    /// The bound on the total number of stored values.
    pub closed spec fn spec_cap(&self) -> usize {
        self.cap
    }

    /// Structural invariant: the stored length and capacity bound agree with
    /// the contents; every segment but the tail is full; forward links,
    /// backward links, `head` and `tail` all describe the same chain, in
    /// which the segment at arena position `i` follows the one at `i - 1`.
    pub closed spec fn wf(&self) -> bool {
        &&& N > 0
        &&& self.len == self@.len()
        &&& self.len <= self.cap
        &&& forall|i: int| 0 <= i < self.seg_count() ==> (#[trigger] self.segs@[i]).wf()
        &&& forall|i: int| 0 <= i < self.seg_count() - 1 ==> (#[trigger] self.segs@[i])@.len() == N
        &&& forall|i: int|
            0 <= i < self.seg_count() ==> (#[trigger] self.segs@[i]).prev_of() == (if i == 0 {
                Option::<usize>::None
            } else {
                Some((i - 1) as usize)
            })
        &&& forall|i: int|
            0 <= i < self.seg_count() ==> (#[trigger] self.segs@[i]).next_of() == (if i
                == self.seg_count() - 1 {
                Option::<usize>::None
            } else {
                Some((i + 1) as usize)
            })
        &&& self.head.0 == (if self.seg_count() == 0 {
            Option::<usize>::None
        } else {
            Some(0usize)
        })
        &&& self.tail.0 == (if self.seg_count() == 0 {
            Option::<usize>::None
        } else {
            Some((self.seg_count() - 1) as usize)
        })
    }

    /// A push-only history leaves the tail non-empty; only a pop can leave an
    /// empty tail pending detachment.
    pub closed spec fn compact(&self) -> bool {
        self.seg_count() > 0 ==> self.seg_seq().last()@.len() > 0
    }

    /// An empty list bounded by `cap`.
    pub fn with_capacity(cap: usize) -> (r: Self)
        requires
            N > 0,
        ensures
            r.wf(),
            r@ =~= Seq::<T>::empty(),
            r.spec_cap() == cap,
            r.seg_count() == 0,
            r.compact(),
    {
        List { head: Link(None), tail: Link(None), len: 0, cap, segs: Vec::new() }
    }

    /// An empty list with no bound on its length.
    pub fn new() -> (r: Self)
        requires
            N > 0,
        ensures
            r.wf(),
            r@ =~= Seq::<T>::empty(),
            r.spec_cap() == usize::MAX,
            r.seg_count() == 0,
            r.compact(),
    {
        Self::with_capacity(usize::MAX)
    }

    pub fn len(&self) -> (r: usize)
        requires
            self.wf(),
        ensures
            r == self@.len(),
    {
        self.len
    }

    pub fn capacity(&self) -> (r: usize)
        ensures
            r == self.spec_cap(),
    {
        self.cap
    }

    pub fn is_empty(&self) -> (r: bool)
        requires
            self.wf(),
        ensures
            r == (self@.len() == 0),
    {
        self.len == 0
    }

    pub fn is_full(&self) -> (r: bool)
        requires
            self.wf(),
        ensures
            r == (self@.len() == self.spec_cap()),
    {
        self.len == self.cap
    }

    /// How many segments the chain holds right now.
    pub fn num_segments(&self) -> (r: usize)
        ensures
            r == self.seg_count(),
    {
        self.segs.len()
    }

    /// Starts the chain: allocates the first segment, stores `item` in it,
    /// and points `head` and `tail` at it.
    fn add_first_block<A: SegmentSource<T, N>>(&mut self, item: T, src: &mut A)
        requires
            old(self).wf(),
            old(src).inv(),
            old(self).seg_count() == 0,
            old(self)@.len() < old(self).spec_cap(),
        ensures
            final(self).wf(),
            final(src).inv(),
            final(self)@ == old(self)@.push(item),
            final(self).seg_count() == 1,
            final(self).seg_seq().last()@.len() == 1,
            final(self).spec_cap() == old(self).spec_cap(),
            final(self).compact(),
    {
        let mut chonk = src.alloc_segment();
        match chonk.0.push(item) {
            Ok(()) => {}
            Err(_) => {
                // Never reached: a fresh segment has room for one value.
                proof {
                    assert(false);
                }
            }
        }
        self.segs.push(chonk);
        self.tail.replace(Link(Some(0)));
        self.head.replace(Link(Some(0)));
        self.len = self.len + 1;
        proof {
            assert(self.segs@.drop_last() =~= Seq::<ListChonk<T, N>>::empty());
            assert(self@ == flat_of(self.segs@.drop_last()) + self.segs@.last()@);
            assert(flat_of(self.segs@.drop_last()).len() == 0);
            assert(self.segs@.last()@[0] == item);
            assert(old(self)@ =~= Seq::<T>::empty());
            assert(self@ =~= old(self)@.push(item));
        }
    }

    /// Grows the chain: allocates a new tail segment, links it behind the
    /// full old tail, and stores `item` in it.
    fn add_block<A: SegmentSource<T, N>>(&mut self, item: T, src: &mut A)
        requires
            old(self).wf(),
            old(src).inv(),
            old(self).seg_count() > 0,
            old(self).seg_seq().last()@.len() == N,
            old(self)@.len() < old(self).spec_cap(),
        ensures
            final(self).wf(),
            final(src).inv(),
            final(self)@ == old(self)@.push(item),
            final(self).seg_count() == old(self).seg_count() + 1,
            final(self).seg_seq().last()@.len() == 1,
            final(self).spec_cap() == old(self).spec_cap(),
            final(self).compact(),
    {
        let mut chonk = src.alloc_segment();
        let new_idx = self.segs.len();
        // The new tail points back at the old one ...
        chonk.0.header.prev.replace(Link(Some(new_idx - 1)));
        // ... which in turn points forward at the new tail.
        let mut old_tail = match self.segs.pop() {
            Some(s) => s,
            None => {
                // Never reached: a populated tail link means the arena
                // holds a segment.
                proof {
                    assert(false);
                }
                ListChonk::new()
            }
        };
        old_tail.0.header.next.replace(Link(Some(new_idx)));
        self.segs.push(old_tail);
        match chonk.0.push(item) {
            Ok(()) => {}
            Err(_) => {
                // Never reached: a fresh segment has room for one value.
                proof {
                    assert(false);
                }
            }
        }
        self.segs.push(chonk);
        self.tail.replace(Link(Some(new_idx)));
        self.len = self.len + 1;
        proof {
            let pre = old(self).segs@;
            let mid = self.segs@.drop_last();
            assert(mid =~= pre.update(pre.len() - 1, mid.last()));
            lemma_flat_of_data_eq(mid, pre);
            assert(self@ == flat_of(mid) + self.segs@.last()@);
            assert(self.segs@.last()@.len() == 1);
            assert(self.segs@.last()@[0] == item);
            assert(self@ =~= old(self)@.push(item));
        }
    }

    /// Appends `item`, drawing any segment it needs from `src`. When the
    /// list already holds `capacity` values it rejects the push and hands
    /// `item` back unchanged, having touched nothing.
    pub fn push_custom<A: SegmentSource<T, N>>(&mut self, item: T, src: &mut A) -> (r: Result<
        (),
        T,
    >)
        requires
            old(self).wf(),
            old(src).inv(),
        ensures
            final(self).wf(),
            final(src).inv(),
            final(self).spec_cap() == old(self).spec_cap(),
            old(self)@.len() == old(self).spec_cap() ==> r == Err::<(), T>(item)
                && *final(self) == *old(self) && *final(src) == *old(src),
            old(self)@.len() < old(self).spec_cap() && old(self).seg_count() > 0
                && old(self).seg_seq().last()@.len() < N ==> *final(src) == *old(src),
            old(self)@.len() < old(self).spec_cap() ==> r is Ok
                && final(self)@ == old(self)@.push(item)
                && final(self).compact()
                && final(self).seg_count() == (if old(self).seg_count() == 0
                    || old(self).seg_seq().last()@.len() == N {
                    old(self).seg_count() + 1
                } else {
                    old(self).seg_count()
                })
                && final(self).seg_seq().last()@.len() == (if old(self).seg_count() == 0
                    || old(self).seg_seq().last()@.len() == N {
                    1int
                } else {
                    old(self).seg_seq().last()@.len() + 1int
                }),
    {
        if self.len == self.cap {
            return Err(item);
        }
        if self.tail.as_ref().is_some() {
            // There is a block: try an in-place append, falling back to
            // fetching a new block when the tail is full.
            let mut tail_seg = match self.segs.pop() {
                Some(s) => s,
                None => {
                    // Never reached: a populated tail link means the arena
                    // holds a segment.
                    proof {
                        assert(false);
                    }
                    ListChonk::new()
                }
            };
            match tail_seg.0.push(item) {
                Ok(()) => {
                    self.segs.push(tail_seg);
                    self.len = self.len + 1;
                    proof {
                        let pre = old(self).segs@;
                        assert(self.segs@.drop_last() =~= pre.drop_last());
                        assert(self@ == flat_of(pre.drop_last()) + pre.last()@.push(item));
                        assert(self@ =~= old(self)@.push(item));
                    }
                    Ok(())
                }
                Err(item) => {
                    self.segs.push(tail_seg);
                    proof {
                        assert(self.segs@ =~= old(self).segs@);
                    }
                    self.add_block(item, src);
                    Ok(())
                }
            }
        } else {
            // No block yet: the chain has to be started.
            self.add_first_block(item, src);
            Ok(())
        }
    }

    /// Pops the most recently appended value, releasing through `src` any
    /// segment the pop drains. An empty list yields nothing and is left
    /// untouched; a pop that finds the tail already drained first detaches
    /// it, rewires the chain, and retries against the new tail.
    pub fn pop_custom<A: SegmentSource<T, N>>(&mut self, src: &mut A) -> (r: Option<T>)
        requires
            old(self).wf(),
            old(src).inv(),
        ensures
            final(self).wf(),
            final(src).inv(),
            final(self).spec_cap() == old(self).spec_cap(),
            old(self).seg_count() == 0 ==> r is None && *final(self) == *old(self)
                && *final(src) == *old(src),
            old(self).seg_count() > 0 && old(self).seg_seq().last()@.len() > 0 ==> *final(src)
                == *old(src),
            old(self)@.len() == 0 ==> r is None && final(self)@ == old(self)@
                && final(self).seg_count() == 0,
            old(self)@.len() > 0 ==> r == Some(old(self)@.last())
                && final(self)@ == old(self)@.drop_last()
                && final(self).seg_count() == old(self).seg_count() - (
                if old(self).seg_seq().last()@.len() == 0 {
                    1int
                } else {
                    0int
                })
                && final(self).seg_seq().last()@.len() == (
                if old(self).seg_seq().last()@.len() > 0 {
                    old(self).seg_seq().last()@.len() - 1
                } else {
                    (N - 1) as int
                }),
    {
        if self.tail.as_ref().is_none() {
            return None;
        }
        let mut tail_seg = match self.segs.pop() {
            Some(s) => s,
            None => {
                // Never reached: a populated tail link means the arena
                // holds a segment.
                proof {
                    assert(false);
                }
                ListChonk::new()
            }
        };
        match tail_seg.0.data.pop() {
            Some(item) => {
                self.segs.push(tail_seg);
                self.len = self.len - 1;
                proof {
                    let pre = old(self).segs@;
                    assert(self.segs@.drop_last() =~= pre.drop_last());
                    assert(self@ == flat_of(pre.drop_last()) + pre.last()@.drop_last());
                    assert(old(self)@ == flat_of(pre.drop_last()) + pre.last()@);
                    assert(pre.last()@.len() > 0);
                    assert(self@ =~= old(self)@.drop_last());
                    assert(old(self)@.last() == item);
                }
                Some(item)
            }
            None => {
                // The tail was already drained by an earlier pop: detach it,
                // make its predecessor the tail, and release the block.
                let mut prev = tail_seg.0.header.prev.take();
                self.tail.swap(&mut prev);
                src.free_segment(tail_seg);
                proof {
                    assert(self.segs@ =~= old(self).segs@.drop_last());
                    assert(old(self)@ == flat_of(self.segs@) + old(self).segs@.last()@);
                    assert(old(self)@ =~= flat_of(self.segs@));
                }
                if self.segs.len() == 0 {
                    // That was the only block; the chain is gone.
                    self.head.take();
                    return None;
                }
                // Clear the stale forward link on the new tail, then retry
                // the pop against it.
                let mut new_tail = match self.segs.pop() {
                    Some(s) => s,
                    None => {
                        proof {
                            assert(false);
                        }
                        ListChonk::new()
                    }
                };
                new_tail.0.header.next.take();
                let item = match new_tail.0.data.pop() {
                    Some(i) => i,
                    None => {
                        proof {
                            assert(false);
                        }
                        return None;
                    }
                };
                self.segs.push(new_tail);
                self.len = self.len - 1;
                proof {
                    let pre = old(self).segs@.drop_last();
                    assert(self.segs@.len() == pre.len());
                    assert(self.segs@.drop_last() =~= pre.drop_last());
                    assert(self@ == flat_of(pre.drop_last()) + pre.last()@.drop_last());
                    assert(flat_of(pre) == flat_of(pre.drop_last()) + pre.last()@);
                    assert(pre.last()@.len() == N);
                    assert(self@ =~= flat_of(pre).drop_last());
                    assert(old(self)@.last() == item);
                }
                Some(item)
            }
        }
    }

    /// Pops the most recently appended value, releasing any drained segment
    /// straight to the heap. An empty list yields nothing and is left
    /// untouched.
    pub fn pop(&mut self) -> (r: Option<T>)
        requires
            old(self).wf(),
        ensures
            final(self).wf(),
            final(self).spec_cap() == old(self).spec_cap(),
            old(self).seg_count() == 0 ==> r is None && *final(self) == *old(self),
            old(self)@.len() == 0 ==> r is None && final(self)@ == old(self)@
                && final(self).seg_count() == 0,
            old(self)@.len() > 0 ==> r == Some(old(self)@.last())
                && final(self)@ == old(self)@.drop_last()
                && final(self).seg_count() == old(self).seg_count() - (
                if old(self).seg_seq().last()@.len() == 0 {
                    1int
                } else {
                    0int
                })
                && final(self).seg_seq().last()@.len() == (
                if old(self).seg_seq().last()@.len() > 0 {
                    old(self).seg_seq().last()@.len() - 1
                } else {
                    (N - 1) as int
                }),
    {
        let mut src = DefaultSegmentSource;
        self.pop_custom(&mut src)
    }

    /// Pops every value and releases every segment through `src`: the
    /// explicit teardown. A list merely dropped while segments are linked
    /// releases none of them through its source.
    pub fn drain_custom<A: SegmentSource<T, N>>(&mut self, src: &mut A)
        requires
            old(self).wf(),
            old(src).inv(),
        ensures
            final(self).wf(),
            final(src).inv(),
            final(self).spec_cap() == old(self).spec_cap(),
            final(self)@.len() == 0,
            final(self).seg_count() == 0,
    {
        loop
            invariant
                self.wf(),
                src.inv(),
                self.spec_cap() == old(self).spec_cap(),
            ensures
                self@.len() == 0,
                self.seg_count() == 0,
            decreases self@.len() + self.seg_count(),
        {
            if self.pop_custom(src).is_none() {
                break;
            }
        }
    }

    /// Pops every value and releases every segment straight to the heap:
    /// the explicit teardown of a list backed by plain allocation.
    pub fn drain(&mut self)
        requires
            old(self).wf(),
        ensures
            final(self).wf(),
            final(self).spec_cap() == old(self).spec_cap(),
            final(self)@.len() == 0,
            final(self).seg_count() == 0,
    {
        let mut src = DefaultSegmentSource;
        self.drain_custom(&mut src)
    }

    /// Appends `item`, taking any segment it needs straight from the heap.
    /// Rejects the push, handing `item` back unchanged, when the list is at
    /// capacity.
    pub fn push(&mut self, item: T) -> (r: Result<(), T>)
        requires
            old(self).wf(),
        ensures
            final(self).wf(),
            final(self).spec_cap() == old(self).spec_cap(),
            old(self)@.len() == old(self).spec_cap() ==> r == Err::<(), T>(item)
                && *final(self) == *old(self),
            old(self)@.len() < old(self).spec_cap() ==> r is Ok
                && final(self)@ == old(self)@.push(item)
                && final(self).compact()
                && final(self).seg_count() == (if old(self).seg_count() == 0
                    || old(self).seg_seq().last()@.len() == N {
                    old(self).seg_count() + 1
                } else {
                    old(self).seg_count()
                })
                && final(self).seg_seq().last()@.len() == (if old(self).seg_count() == 0
                    || old(self).seg_seq().last()@.len() == N {
                    1int
                } else {
                    old(self).seg_seq().last()@.len() + 1int
                }),
    {
        let mut src = DefaultSegmentSource;
        self.push_custom(item, &mut src)
    }

    /// The start of the chain, as the arena position `head` holds.
    pub closed spec fn head_of(&self) -> Option<usize> {
        self.head.0
    }

    /// The end of the chain, as the arena position `tail` holds.
    pub closed spec fn tail_of(&self) -> Option<usize> {
        self.tail.0
    }

    /// The ends of a consistent chain: `head` and `tail` are empty exactly
    /// when the list holds no segment at all, and otherwise they name the
    /// first and the last one.
    pub proof fn lemma_ends(&self)
        requires
            self.wf(),
        ensures
            self.head_of() is None <==> self.seg_count() == 0,
            self.tail_of() is None <==> self.seg_count() == 0,
            self.seg_count() == 0 ==> self@.len() == 0,
    {
        if self.seg_count() == 0 {
            assert(self@.len() == 0);
        }
    }

    /// Strict last-in-first-out order, for any contents and any chunk size:
    /// a successful `push` turns contents `s` into `s.push(v)`, and `pop`
    /// returns `last` and leaves `drop_last` — so the pop right after a push
    /// returns the pushed value and restores the contents that were there
    /// before, whatever `N` is.
    pub proof fn lemma_lifo_round_trip(s: Seq<T>, v: T)
        ensures
            s.push(v).last() == v,
            s.push(v).drop_last() =~= s,
    {
    }

    /// Under a push-only history the tail never sits empty, and then the
    /// number of segments in the chain is exactly the number of stored
    /// values divided by `N`, rounded up.
    pub proof fn lemma_seg_count_is_ceil(l: List<T, N>)
        requires
            l.wf(),
            l.compact(),
        ensures
            l.seg_count() == (l@.len() + N - 1) / (N as int),
    {
        lemma_flat_of_len(l.segs@);
        let k = l.seg_count();
        if k == 0 {
            assert((0 + N - 1) / (N as int) == 0) by (nonlinear_arith)
                requires N >= 1,
            ;
        } else {
            let last = l.segs@.last()@.len() as int;
            assert(l@.len() == (k - 1) * N + last);
            assert(((k - 1) * N + last + N - 1) / (N as int) == k) by (nonlinear_arith)
                requires
                    N >= 1,
                    k >= 1,
                    0 < last <= N,
            ;
        }
    }

    /// Reads the value at position `i` of the logical sequence: in-order
    /// inspection, front to back.
    pub fn get(&self, i: usize) -> (r: &T)
        requires
            self.wf(),
            i < self@.len(),
        ensures
            *r == self@[i as int],
    {
        proof {
            lemma_flat_of_index(self.segs@, i as int);
        }
        let seg = i / N;
        let off = i % N;
        &self.segs[seg].0.data[off]
    }

    /// How many values the segment at chain position `i` holds.
    pub fn seg_len(&self, i: usize) -> (r: usize)
        requires
            i < self.seg_count(),
        ensures
            r == self.seg_seq()[i as int]@.len(),
    {
        self.segs[i].len()
    }
}

} // verus!

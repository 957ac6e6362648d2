use vstd::prelude::*;
use crate::list::{List, SegmentSource};
use crate::local_pointer_chonks::LocalPointerChonks;

verus! {

/// A list of owned, boxed values whose segment growth and shrink are
/// serviced by a recycling pool instead of the general allocator: pushes
/// draw any needed segment from the pool handed in, and a pop that drains a
/// segment returns the block to that pool.
pub struct RecyclingList<T, const N: usize> {
    list: List<Box<T>, N>,
}

impl<T, const N: usize> View for RecyclingList<T, N> {
    type V = Seq<Box<T>>;

    closed spec fn view(&self) -> Seq<Box<T>> {
        self.list@
    }
}

impl<T, const N: usize> RecyclingList<T, N> {
    pub closed spec fn wf(&self) -> bool {
        self.list.wf()
    }

    /// The bound on the total number of stored values.
    pub closed spec fn spec_cap(&self) -> usize {
        self.list.spec_cap()
    }

    /// An empty list bounded by `cap` values.
    pub fn with_capacity(cap: usize) -> (r: Self)
        requires
            N > 0,
        ensures
            r.wf(),
            r@ =~= Seq::<Box<T>>::empty(),
            r.spec_cap() == cap,
    {
        RecyclingList { list: List::with_capacity(cap) }
    }

    /// An empty list with no bound on its length.
    pub fn new() -> (r: Self)
        requires
            N > 0,
        ensures
            r.wf(),
            r@ =~= Seq::<Box<T>>::empty(),
            r.spec_cap() == usize::MAX,
    {
        RecyclingList { list: List::new() }
    }

    pub fn len(&self) -> (r: usize)
        requires
            self.wf(),
        ensures
            r == self@.len(),
    {
        self.list.len()
    }

    pub fn capacity(&self) -> (r: usize)
        ensures
            r == self.spec_cap(),
    {
        self.list.capacity()
    }

    pub fn is_empty(&self) -> (r: bool)
        requires
            self.wf(),
        ensures
            r == (self@.len() == 0),
    {
        self.list.is_empty()
    }

    pub fn is_full(&self) -> (r: bool)
        requires
            self.wf(),
        ensures
            r == (self@.len() == self.spec_cap()),
    {
        self.list.is_full()
    }

    /// Appends the owned value, drawing any needed segment from `src`.
    /// Hands the value back unchanged when the list is at capacity.
    pub fn push_custom<A: SegmentSource<Box<T>, N>>(&mut self, item: Box<T>, src: &mut A) -> (r:
        Result<(), Box<T>>)
        requires
            old(self).wf(),
            old(src).inv(),
        ensures
            final(self).wf(),
            final(src).inv(),
            final(self).spec_cap() == old(self).spec_cap(),
            old(self)@.len() == old(self).spec_cap() ==> r == Err::<(), Box<T>>(item)
                && *final(self) == *old(self) && *final(src) == *old(src),
            old(self)@.len() < old(self).spec_cap() ==> r is Ok
                && final(self)@ == old(self)@.push(item),
    {
        self.list.push_custom(item, src)
    }

    /// Appends the owned value, drawing any needed segment from `pool`.
    /// Hands the value back unchanged when the list is at capacity.
    pub fn push(&mut self, item: Box<T>, pool: &mut LocalPointerChonks<N>) -> (r: Result<
        (),
        Box<T>,
    >)
        requires
            old(self).wf(),
            old(pool).wf(),
        ensures
            final(self).wf(),
            final(pool).wf(),
            final(self).spec_cap() == old(self).spec_cap(),
            old(self)@.len() == old(self).spec_cap() ==> r == Err::<(), Box<T>>(item)
                && *final(self) == *old(self) && *final(pool) == *old(pool),
            old(self)@.len() < old(self).spec_cap() ==> r is Ok
                && final(self)@ == old(self)@.push(item),
    {
        self.push_custom(item, pool)
    }

    /// Removes and returns the most recently appended value, returning any
    /// drained segment to `src`. Popping an empty recycling list is a
    /// programming error, ruled out up front.
    pub fn pop_custom<A: SegmentSource<Box<T>, N>>(&mut self, src: &mut A) -> (r: Box<T>)
        requires
            old(self).wf(),
            old(src).inv(),
            old(self)@.len() > 0,
        ensures
            final(self).wf(),
            final(src).inv(),
            final(self).spec_cap() == old(self).spec_cap(),
            r == old(self)@.last(),
            final(self)@ == old(self)@.drop_last(),
    {
        match self.list.pop_custom(src) {
            Some(item) => item,
            None => {
                proof {
                    assert(false);
                }
                vstd::pervasive::unreached()
            }
        }
    }

    /// Removes and returns the most recently appended value, returning any
    /// drained segment to `pool`. Popping an empty recycling list is a
    /// programming error, ruled out up front.
    pub fn pop(&mut self, pool: &mut LocalPointerChonks<N>) -> (r: Box<T>)
        requires
            old(self).wf(),
            old(pool).wf(),
            old(self)@.len() > 0,
        ensures
            final(self).wf(),
            final(pool).wf(),
            final(self).spec_cap() == old(self).spec_cap(),
            r == old(self)@.last(),
            final(self)@ == old(self)@.drop_last(),
    {
        self.pop_custom(pool)
    }
}

} // verus!

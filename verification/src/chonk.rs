use vstd::prelude::*;

verus! {

/// A fixed-capacity sequence of up to `N` values of `T` appended to an
/// arbitrary header `H`: the base storage unit of the library.
///
/// Pushing past `N` fails and returns the rejected value instead of mutating
/// state. A zero-capacity chunk is a programming error, ruled out at
/// construction.
pub struct Chonk<H, T, const N: usize> {
    pub header: H,
    pub data: Vec<T>,
}

impl<H, T, const N: usize> Chonk<H, T, N> {
    /// Capacity invariant: a chunk never holds more than `N` values, and a
    /// chunk of capacity zero never exists.
    pub open spec fn wf(&self) -> bool {
        self.data@.len() <= N && N > 0
    }

    /// A fresh chunk holding `header` and no values.
    pub fn new(header: H) -> (r: Self)
        requires
            N > 0,
        ensures
            r.wf(),
            r.data@ =~= Seq::<T>::empty(),
            r.header == header,
    {
        Chonk { header, data: Vec::new() }
    }

    /// Appends `item` when there is room; hands it back unchanged when full.
    pub fn push(&mut self, item: T) -> (r: Result<(), T>)
        ensures
            old(self).data@.len() < N ==> r is Ok
                && final(self).data@ == old(self).data@.push(item)
                && final(self).header == old(self).header,
            old(self).data@.len() >= N ==> r == Err::<(), T>(item)
                && *final(self) == *old(self),
    {
        if self.data.len() < N {
            self.data.push(item);
            Ok(())
        } else {
            Err(item)
        }
    }

    pub fn len(&self) -> (r: usize)
        ensures
            r == self.data@.len(),
    {
        self.data.len()
    }

    pub fn is_empty(&self) -> (r: bool)
        ensures
            r == (self.data@.len() == 0),
    {
        self.data.is_empty()
    }

    pub fn is_full(&self) -> (r: bool)
        ensures
            r == (self.data@.len() >= N),
    {
        self.data.len() >= N
    }

    /// How many more values fit.
    pub fn space(&self) -> (r: usize)
        requires
            self.data@.len() <= N,
        ensures
            r == N - self.data@.len(),
    {
        N - self.data.len()
    }
}

} // verus!

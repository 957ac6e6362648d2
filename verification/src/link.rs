use vstd::prelude::*;

verus! {

/// A nullable, copyable reference slot with explicit take / replace / swap
/// semantics and no implied ownership.
///
/// In this arena-based design a populated slot holds the position of a chain
/// node inside the owning structure's node arena (so `T` is usually `usize`),
/// rather than a machine address. Copying a `Link` never duplicates what it
/// refers to; ownership is established by the structure holding the slot.
pub struct Link<T>(pub Option<T>);

impl<T: Copy> Clone for Link<T> {
    fn clone(&self) -> (r: Self)
        ensures
            r == *self,
    {
        Link(self.0)
    }
}

impl<T: Copy> Copy for Link<T> {}

impl<T> Default for Link<T> {
    fn default() -> (r: Self)
        ensures
            r.0 is None,
    {
        Link(None)
    }
}

impl<T> Link<T> {
    /// Empties the slot, returning its previous contents.
    pub fn take(&mut self) -> (r: Link<T>)
        ensures
            r == *old(self),
            final(self).0 is None,
    {
        Link(self.0.take())
    }

    /// Sets the slot to `other`, returning its previous contents.
    pub fn replace(&mut self, other: Link<T>) -> (r: Link<T>)
        ensures
            *final(self) == other,
            r == *old(self),
    {
        let mut other = other;
        self.swap(&mut other);
        other
    }

    /// Exchanges the contents of two slots; no referent is touched.
    pub fn swap(&mut self, other: &mut Link<T>)
        ensures
            *final(self) == *old(other),
            *final(other) == *old(self),
    {
        core::mem::swap(self, other)
    }

    /// Borrows the slot's contents, yielding nothing when it is empty.
    pub fn as_ref(&self) -> (r: Option<&T>)
        ensures
            r is Some <==> self.0 is Some,
            r is Some ==> *r->0 == self.0->0,
    {
        self.0.as_ref()
    }

    /// Mutably borrows the slot's contents, yielding nothing when it is
    /// empty.
    pub fn as_mut(&mut self) -> (r: Option<&mut T>)
        ensures
            r is Some <==> old(self).0 is Some,
            r is None ==> *final(self) == *old(self),
            r is Some ==> *r->0 == old(self).0->0 && final(self).0 == Some(*final(r->0)),
    {
        match &mut self.0 {
            Some(x) => Some(x),
            None => None,
        }
    }

    /// If the slot is empty, fills it from the zero-argument fallback;
    /// otherwise leaves it alone.
    pub fn or_else<F: FnOnce() -> Link<T>>(&mut self, f: F)
        requires
            old(self).0 is None ==> f.requires(()),
        ensures
            old(self).0 is Some ==> *final(self) == *old(self),
            old(self).0 is None ==> f.ensures((), *final(self)),
    {
        if self.0.is_none() {
            let mut val = f();
            self.swap(&mut val);
        }
    }
}

} // verus!

use vstd::prelude::*;

verus! {

/// A slot that holds a read entry, or nothing, and hands it over by
/// swapping it out.
pub struct ReadEntryPtr<T> {
    inner: Option<T>,
}

impl<T> View for ReadEntryPtr<T> {
    type V = Option<T>;

    /// What the slot holds.
    closed spec fn view(&self) -> Option<T> {
        self.inner
    }
}

impl<T> ReadEntryPtr<T> {
    /// A slot that holds `value`.
    pub fn new(value: Option<T>) -> (r: Self)
        ensures
            r@ == value,
    {
        ReadEntryPtr { inner: value }
    }

    /// Take what the slot holds, leaving it empty.
    pub fn swap(&mut self) -> (r: Option<T>)
        ensures
            r == old(self)@,
            final(self)@ == None::<T>,
    {
        let mut taken: Option<T> = None;
        core::mem::swap(&mut taken, &mut self.inner);
        taken
    }

    /// What the slot holds, left in place.
    pub fn get(&self) -> (r: Option<&T>)
        ensures
            match self@ {
                Some(v) => r == Some(&v),
                None => r is None,
            },
    {
        self.inner.as_ref()
    }

    /// Put `value` in the slot, in place of what it held.
    pub fn set(&mut self, value: Option<T>)
        ensures
            final(self)@ == value,
    {
        self.inner = value;
    }
}

impl<T> Default for ReadEntryPtr<T> {
    fn default() -> (r: Self)
        ensures
            r@ == None::<T>,
    {
        ReadEntryPtr { inner: None }
    }
}

} // verus!

use vstd::prelude::*;

verus! {

/// A bounded value stack. `CAPACITY` is the most values it may ever hold.
pub struct Stack<T, const CAPACITY: usize>(pub Vec<T>);

impl<T, const CAPACITY: usize> Stack<T, CAPACITY> {
    /// The values on the stack, bottom first.
    pub open spec fn view(&self) -> Seq<T> {
        self.0@
    }

    pub fn new() -> (r: Self)
        ensures
            r.view() == Seq::<T>::empty(),
    {
        Stack(Vec::with_capacity(CAPACITY))
    }

    /// Pushes `value`; pushing onto a full stack is a stack overflow.
    pub fn push(&mut self, value: T)
        requires
            old(self).view().len() < CAPACITY,
        ensures
            final(self).view() == old(self).view().push(value),
    {
        self.0.push(value);
    }

    pub fn pop(&mut self) -> (r: T)
        requires
            old(self).view().len() > 0,
        ensures
            r == old(self).view().last(),
            final(self).view() == old(self).view().drop_last(),
    {
        self.0.pop().unwrap()
    }

    /// The value `offset` places below the top.
    pub fn peek(&self, offset: usize) -> (r: &T)
        requires
            offset < self.view().len(),
        ensures
            *r == self.view()[self.view().len() - 1 - offset],
    {
        &self.0[self.0.len() - 1 - offset]
    }

    pub fn peek_mut(&mut self, offset: usize) -> (r: &mut T)
        requires
            offset < old(self).view().len(),
        ensures
            *r == old(self).view()[old(self).view().len() - 1 - offset],
            final(self).view() == old(self).view().update(
                old(self).view().len() - 1 - offset,
                *final(r),
            ),
    {
        let len = self.0.len();
        &mut self.0[len - 1 - offset]
    }

    /// Removes and returns the value `offset` places below the top.
    pub fn take(&mut self, offset: usize) -> (r: T)
        requires
            offset < old(self).view().len(),
        ensures
            r == old(self).view()[old(self).view().len() - 1 - offset],
            final(self).view() == old(self).view().remove(old(self).view().len() - 1 - offset),
    {
        let i = self.0.len() - 1 - offset;
        self.0.remove(i)
    }

    pub fn get(&self, index: usize) -> (r: &T)
        requires
            index < self.view().len(),
        ensures
            *r == self.view()[index as int],
    {
        &self.0[index]
    }

    pub fn get_mut(&mut self, index: usize) -> (r: &mut T)
        requires
            index < old(self).view().len(),
        ensures
            *r == old(self).view()[index as int],
            final(self).view() == old(self).view().update(index as int, *final(r)),
    {
        &mut self.0[index]
    }

    pub fn set(&mut self, index: usize, value: T)
        requires
            index < old(self).view().len(),
        ensures
            final(self).view() == old(self).view().update(index as int, value),
    {
        self.0.set(index, value);
    }

    /// Keeps the lowest `len` values; a longer `len` changes nothing.
    pub fn truncate(&mut self, len: usize)
        ensures
            len <= old(self).view().len() ==> final(self).view() == old(self).view().subrange(0, len as int),
            len > old(self).view().len() ==> final(self).view() == old(self).view(),
    {
        self.0.truncate(len);
    }

    pub fn len(&self) -> (r: usize)
        ensures
            r == self.view().len(),
    {
        self.0.len()
    }

    pub fn is_empty(&self) -> (r: bool)
        ensures
            r == (self.view().len() == 0),
    {
        self.0.len() == 0
    }

    /// Iterates from the bottom of the stack to the top.
    pub fn iter(&self) -> (r: std::slice::Iter<'_, T>)
        ensures
            vstd::std_specs::slice::into_iter_elts(r) == self.view(),
    {
        self.0.iter()
    }
}

} // verus!

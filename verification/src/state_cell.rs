//! Per-node and shared state cells. The engine stays free of
//! application-specific types by being generic over the one state type an
//! application fixes at tree-construction time; a cell holds zero or one
//! value of that type. Retrieval from an empty cell is a wiring bug, ruled
//! out at verification time rather than detected at run time.

use vstd::prelude::*;

verus! {

/// A cell holding at most one value of the application's state type.
pub struct DynamicOptional<T> {
    inner: Option<T>,
}

impl<T> View for DynamicOptional<T> {
    type V = Option<T>;

    closed spec fn view(&self) -> Option<T> {
        self.inner
    }
}

impl<T> DynamicOptional<T> {
    /// A cell holding `value`.
    pub fn new(value: T) -> (r: Self)
        ensures
            r@ == Some(value),
    {
        Self { inner: Some(value) }
    }

    /// An empty cell.
    pub fn none() -> (r: Self)
        ensures
            r@ is None,
    {
        Self { inner: None }
    }

    /// Read the held value. Calling this on an empty cell would be a wiring
    /// bug; verified callers must show the cell is filled.
    pub fn get_inner_value(&self) -> (r: &T)
        requires
            self@ is Some,
        ensures
            Some(*r) == self@,
    {
        match &self.inner {
            Some(value) => value,
            None => unreached(),
        }
    }

    /// Mutable access to the held value, as a borrow.
    pub fn get_inner_value_mut(&mut self) -> (r: &mut T)
        requires
            old(self)@ is Some,
        ensures
            old(self)@ == Some(*r),
            final(self)@ == Some(*final(r)),
    {
        match &mut self.inner {
            Some(value) => value,
            None => unreached(),
        }
    }

    /// Whether the cell holds a value.
    pub fn has_inner_value(&self) -> (b: bool)
        ensures
            b == (self@ is Some),
    {
        match &self.inner {
            Some(_) => true,
            None => false,
        }
    }

    /// Replace the cell's contents with `value`.
    pub fn set_inner_value(&mut self, value: T)
        ensures
            final(self)@ == Some(value),
    {
        self.inner = Some(value);
    }
}

} // verus!

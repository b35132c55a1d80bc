//! A plain value cell: a box around one value that can be replaced wholesale
//! and, for copyable contents, read out.

use vstd::prelude::*;

verus! {

/// A mutable value cell. `set` replaces the stored value, `get` reads it.
pub struct Cell<T> {
    v: T,
}

impl<T> Cell<T> {
    /// The stored value.
    pub closed spec fn value(self) -> T {
        self.v
    }

    /// A cell holding `value`.
    pub fn new(value: T) -> (r: Cell<T>)
        ensures
            r.value() == value,
    {
        Cell { v: value }
    }

    /// Replaces the stored value.
    pub fn set(&mut self, val: T)
        ensures
            final(self).value() == val,
    {
        self.v = val;
    }
}

impl<T: Copy> Cell<T> {
    /// The stored value.
    pub fn get(&self) -> (r: T)
        ensures
            r == self.value(),
    {
        self.v
    }
}

} // verus!

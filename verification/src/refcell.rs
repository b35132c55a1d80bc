//! A borrow-tracking cell: one value, lent out either to many readers at
//! once or to a single writer, with the bookkeeping made explicit.
//!
//! Shared access hands out an ordinary reference and raises a reader count;
//! the reader gives its borrow back with [`RefCell::release_shared`].
//! Exclusive access moves the value out inside a [`RefMut`] token and takes
//! it back with [`RefCell::release_mut`]. The contracts rule conflicting
//! borrows out, so no runtime check can fail.

use vstd::prelude::*;

verus! {

/// How the cell's value is currently lent out.
#[derive(Clone, Copy)]
pub enum BorrowState {
    /// Not lent out at all.
    UnBorrow,
    /// Lent to this many readers.
    SharedBorrow(usize),
    /// Lent to one writer, which holds the value itself.
    ExclusiveBorrow,
}

/// The exclusive borrow of a [`RefCell`]: it owns the value until it is
/// given back with [`RefCell::release_mut`].
pub struct RefMut<T> {
    /// The borrowed value, free to be read and written.
    pub value: T,
}

/// A cell whose value is lent out under explicit bookkeeping.
pub struct RefCell<T> {
    value: Option<T>,
    state: BorrowState,
}

impl<T> RefCell<T> {
    /// The value the cell holds; `None` exactly while a writer holds it.
    pub closed spec fn contents(self) -> Option<T> {
        self.value
    }

    /// How the value is currently lent out.
    pub closed spec fn borrow_state(self) -> BorrowState {
        self.state
    }

    /// The bookkeeping is sound: the value is absent exactly during an
    /// exclusive borrow, and a reader count is never zero.
    pub closed spec fn wf(self) -> bool {
        &&& (self.state is ExclusiveBorrow <==> self.value is None)
        &&& (self.state matches BorrowState::SharedBorrow(c) ==> c >= 1)
    }

    /// A cell holding `value`, not lent out.
    pub fn new(value: T) -> (r: RefCell<T>)
        ensures
            r.wf(),
            r.contents() == Some(value),
            r.borrow_state() is UnBorrow,
    {
        RefCell { value: Some(value), state: BorrowState::UnBorrow }
    }

    /// Lends the value to one more reader. Not allowed while a writer holds
    /// the value; every reader must later give the borrow back with
    /// [`RefCell::release_shared`].
    pub fn borrow(&self) -> (r: &T)
        requires
            self.wf(),
            !(self.borrow_state() is ExclusiveBorrow),
        ensures
            Some(*r) == self.contents(),
    {
        self.value.as_ref().unwrap()
    }

    /// Records one more reader. Separated from [`RefCell::borrow`] so that
    /// the handed-out reference and the count do not borrow-conflict; a
    /// reader that only peeks once need not count itself at all.
    pub fn acquire_shared(&mut self)
        requires
            old(self).wf(),
            !(old(self).borrow_state() is ExclusiveBorrow),
            old(self).borrow_state() matches BorrowState::SharedBorrow(c) ==> c < usize::MAX,
        ensures
            final(self).wf(),
            final(self).contents() == old(self).contents(),
            match old(self).borrow_state() {
                BorrowState::UnBorrow => final(self).borrow_state() == BorrowState::SharedBorrow(
                    1usize,
                ),
                BorrowState::SharedBorrow(c) => final(self).borrow_state()
                    == BorrowState::SharedBorrow((c + 1) as usize),
                BorrowState::ExclusiveBorrow => false,
            },
    {
        match self.state {
            BorrowState::UnBorrow => {
                self.state = BorrowState::SharedBorrow(1);
            },
            BorrowState::SharedBorrow(count) => {
                self.state = BorrowState::SharedBorrow(count + 1);
            },
            BorrowState::ExclusiveBorrow => {
                proof {
                    assert(false);
                }
            },
        }
    }

    /// One reader gives its borrow back: the count falls by one, and the
    /// cell is free again when the last reader leaves.
    pub fn release_shared(&mut self)
        requires
            old(self).wf(),
            old(self).borrow_state() is SharedBorrow,
        ensures
            final(self).wf(),
            final(self).contents() == old(self).contents(),
            match old(self).borrow_state() {
                BorrowState::SharedBorrow(c) => if c == 1 {
                    final(self).borrow_state() is UnBorrow
                } else {
                    final(self).borrow_state() == BorrowState::SharedBorrow((c - 1) as usize)
                },
                _ => false,
            },
    {
        match self.state {
            BorrowState::SharedBorrow(count) => {
                if count == 1 {
                    self.state = BorrowState::UnBorrow;
                } else {
                    self.state = BorrowState::SharedBorrow(count - 1);
                }
            },
            _ => {
                proof {
                    assert(false);
                }
            },
        }
    }

    /// Lends the value to a single writer, which receives it inside a
    /// [`RefMut`]. Only allowed while the value is not lent out at all.
    pub fn borrow_mut(&mut self) -> (r: RefMut<T>)
        requires
            old(self).wf(),
            old(self).borrow_state() is UnBorrow,
        ensures
            final(self).wf(),
            final(self).borrow_state() is ExclusiveBorrow,
            Some(r.value) == old(self).contents(),
    {
        let value = self.value.take().unwrap();
        self.state = BorrowState::ExclusiveBorrow;
        RefMut { value }
    }

    /// The writer gives the value back: the cell holds it again and is free
    /// to be lent out anew.
    pub fn release_mut(&mut self, guard: RefMut<T>)
        requires
            old(self).wf(),
            old(self).borrow_state() is ExclusiveBorrow,
        ensures
            final(self).wf(),
            final(self).borrow_state() is UnBorrow,
            final(self).contents() == Some(guard.value),
    {
        self.value = Some(guard.value);
        self.state = BorrowState::UnBorrow;
    }
}

} // verus!

//! The unique owning pointer: sole owner of one allocation.
use vstd::prelude::*;

verus! {

/// Exclusive owner of one heap allocation holding a `T`.
///
/// The pointer is neither `Clone` nor `Copy`: moving it hands the
/// allocation over, and the compiler rejects any later use of the
/// moved-from name.
pub struct UniquePtr<T> {
    cell: Box<T>,
}

impl<T: Copy> UniquePtr<T> {
    /// A second owner of a fresh allocation that holds a copy of the
    /// payload.
    pub fn duplicate(&self) -> (copy: Self)
        ensures
            copy@ == self@,
    {
        UniquePtr { cell: Box::new(*self.cell) }
    }
}

impl<T> UniquePtr<T> {
    /// The payload that the pointer owns.
    pub closed spec fn view(&self) -> T {
        *self.cell
    }

    /// Moves `value` onto a fresh allocation and returns its sole owner.
    pub fn allocate(value: T) -> (ptr: Self)
        ensures
            ptr@ == value,
    {
        UniquePtr { cell: Box::new(value) }
    }

    /// Shared view of the payload; ownership stays with the pointer.
    pub fn dereference(&self) -> (target: &T)
        ensures
            *target == self@,
    {
        &*self.cell
    }

    /// Exclusive view of the payload; whatever the caller leaves behind the
    /// returned reference is what the pointer owns afterwards.
    pub fn dereference_mut(&mut self) -> (target: &mut T)
        ensures
            *target == old(self)@,
            final(self)@ == *final(target),
    {
        &mut *self.cell
    }

    /// Overwrites the payload in place and hands the previous one back.
    pub fn replace(&mut self, value: T) -> (previous: T)
        ensures
            previous == old(self)@,
            final(self)@ == value,
    {
        let mut incoming = value;
        std::mem::swap(&mut *self.cell, &mut incoming);
        incoming
    }

    /// Consumes the pointer and returns the payload by value.
    pub fn move_out(self) -> (value: T)
        ensures
            value == self@,
    {
        *self.cell
    }
}

/// Allocating a value and moving it straight back out returns that value.
pub fn round_trip<T>(value: T) -> (back: T)
    ensures
        back == value,
{
    UniquePtr::allocate(value).move_out()
}

} // verus!

//! The dereference protocol: how a call site reaches the value behind one
//! or more pointer layers.
//!
//! A pointer type declares its target by implementing `Pointer`. A call
//! site that holds a reference to a pointer and needs a reference to the
//! target takes one hop with `coerce`; through two nested layers it takes
//! both hops with `coerce_through`. The protocol works on references only:
//! nothing here takes a pointer by value.
use vstd::prelude::*;
use crate::unique::UniquePtr;

verus! {

/// The capability of a pointer type: dereferencing it yields a reference
/// to its target.
pub trait Pointer {
    /// The type that the pointer declares as its target.
    type Target;

    /// The value that a dereference reaches.
    spec fn target(&self) -> Self::Target;

    /// One dereference step.
    fn hop(&self) -> (target: &Self::Target)
        ensures
            *target == self.target(),
    ;
}

/// A pointer of the caller's own making: it holds its value in place and
/// declares the value as its target.
pub struct GoodBox<T>(pub T);

impl<T> GoodBox<T> {
    /// Wraps `value`.
    pub fn new(value: T) -> (boxed: GoodBox<T>)
        ensures
            boxed.0 == value,
    {
        GoodBox(value)
    }
}

impl<T> Pointer for GoodBox<T> {
    type Target = T;

    open spec fn target(&self) -> T {
        self.0
    }

    fn hop(&self) -> (target: &T) {
        &self.0
    }
}

impl<T> Pointer for UniquePtr<T> {
    type Target = T;

    open spec fn target(&self) -> T {
        self@
    }

    fn hop(&self) -> (target: &T) {
        self.dereference()
    }
}

impl<T> core::ops::Deref for GoodBox<T> {
    type Target = T;

    fn deref(&self) -> (target: &T)
        ensures
            *target == self.0,
    {
        &self.0
    }
}

impl<T> core::ops::DerefMut for GoodBox<T> {
    fn deref_mut(&mut self) -> (target: &mut T)
        ensures
            *target == old(self).0,
            final(self).0 == *final(target),
    {
        &mut self.0
    }
}

impl<T> core::ops::Deref for UniquePtr<T> {
    type Target = T;

    fn deref(&self) -> (target: &T)
        ensures
            *target == self@,
    {
        self.dereference()
    }
}

impl<T> core::ops::DerefMut for UniquePtr<T> {
    fn deref_mut(&mut self) -> (target: &mut T)
        ensures
            *target == old(self)@,
            final(self)@ == *final(target),
    {
        self.dereference_mut()
    }
}

/// Reaches the target of `pointer`: the step that a call site takes where
/// it holds `&P` and a `&P::Target` is expected.
pub fn coerce<P: Pointer>(pointer: &P) -> (target: &P::Target)
    ensures
        *target == pointer.target(),
{
    pointer.hop()
}

/// Reaches the target behind two nested pointer layers. The reference is
/// the one that two explicit dereference steps reach.
pub fn coerce_through<P>(pointer: &P) -> (target: &<P::Target as Pointer>::Target) where
    P: Pointer,
    P::Target: Pointer,

    ensures
        *target == pointer.target().target(),
{
    pointer.hop().hop()
}

} // verus!

//! Short verified walks through the runtime, one per capability.
use vstd::prelude::*;
use crate::unique::UniquePtr;

pub mod capability_tour;
pub mod deref_tour;
pub mod drop_tour;
pub mod global_tour;
pub mod shared_tour;
pub mod unique_tour;

verus! {

/// A record with two coordinates.
#[derive(Clone, Copy, Debug, PartialEq, Eq, Structural)]
pub struct Point {
    pub x: i32,
    pub y: i32,
}

/// What a method of `Point` did, and through which receiver it was
/// reached.
#[derive(Clone, Copy, Debug, PartialEq, Eq, Structural)]
pub enum Play {
    /// `move_forward` ran.
    Moving,
    /// `play` ran.
    Playing,
    /// A method that borrows the point ran.
    ByRef,
    /// A method that borrows the point exclusively ran.
    ByMutRef,
    /// A method that takes the point by value ran.
    ByValue,
    /// A method that takes the unique owner of the point ran.
    ByOwner,
    /// A method that takes a shared owner of the point ran.
    BySharedOwner,
}

impl Point {
    /// Moves the point forward; the point itself stays where it is.
    pub fn move_forward(&self) -> (play: Play)
        ensures
            play == Play::Moving,
    {
        Play::Moving
    }

    /// Plays through a shared borrow.
    pub fn play(&self) -> (play: Play)
        ensures
            play == Play::Playing,
    {
        Play::Playing
    }

    /// A method whose receiver is a shared borrow.
    pub fn play_ref(&self) -> (play: Play)
        ensures
            play == Play::ByRef,
    {
        Play::ByRef
    }

    /// A method whose receiver is an exclusive borrow. It changes nothing.
    pub fn play_mut_ref(&mut self) -> (play: Play)
        ensures
            play == Play::ByMutRef,
            *final(self) == *old(self),
    {
        Play::ByMutRef
    }

    /// A method whose receiver is the point by value.
    pub fn play_own(self) -> (play: Play)
        ensures
            play == Play::ByValue,
    {
        Play::ByValue
    }

    /// A method whose receiver is the unique owner of the point: the
    /// allocation ends with the call.
    pub fn play_box_own(owner: UniquePtr<Point>) -> (play: Play)
        ensures
            play == Play::ByOwner,
    {
        Play::ByOwner
    }
}

/// Cloning an owner copies its payload: afterwards there are two owners of
/// two equal values, and a write through one leaves the other as it was.
pub fn clone_example() {
    let source = UniquePtr::allocate(1024u32);
    let mut copy = source.duplicate();
    assert(copy@ == source@);
    let previous = copy.replace(1u32);
    assert(previous == 1024);
    assert(source@ == 1024);
    assert(copy@ == 1);
}

/// A conversion that can fail says so in its result: a count fits a byte
/// exactly when it is below 256, from whichever side the conversion is
/// asked for.
pub fn try_from_and_try_into_example() {
    let small = u8::try_from(255usize);
    assert(small.is_ok() && small.unwrap() == 255);
    let large = u8::try_from(256usize);
    assert(large.is_err());
    let asked_of_the_count: Result<u8, core::num::TryFromIntError> = 7usize.try_into();
    assert(asked_of_the_count.is_ok() && asked_of_the_count.unwrap() == 7);
    let fits = narrow(255);
    assert(fits == Some(255u8));
    let overflows = narrow(256);
    assert(overflows.is_none());
}

/// The byte that holds `count`, if one does.
pub fn narrow(count: usize) -> (byte: Option<u8>)
    ensures
        count <= u8::MAX ==> byte == Some(count as u8),
        count > u8::MAX ==> byte.is_none(),
{
    match u8::try_from(count) {
        Ok(byte) => Some(byte),
        Err(_) => None,
    }
}

} // verus!

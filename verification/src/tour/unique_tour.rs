//! Walks with the unique owning pointer.
use vstd::prelude::*;
use vstd::string::StringExecFns;
use crate::tour::Play;
use crate::tour::Point;
use crate::unique::UniquePtr;

verus! {

/// A value made inside a function leaves it by a move of ownership: the
/// caller owns the string that was built here.
pub fn returned_string() -> (s: String)
    ensures
        s@ == "abc"@,
{
    let s = String::from_str("abc");
    s
}

/// Borrowed text turned into a string that the caller owns.
pub fn to_owned_example() -> (owned: String)
    ensures
        owned@ == "hjkl1!"@,
{
    let a: &str = "hjkl1!";
    let o: String = a.to_owned();
    o
}

/// A number moved onto the heap; the owner of the allocation is returned.
pub fn boxed_number() -> (boxed: UniquePtr<u32>)
    ensures
        boxed@ == 100,
{
    let i: u32 = 100;
    UniquePtr::allocate(i)
}

/// A record built in the caller's frame and then moved onto the heap.
pub fn boxed_point() -> (boxed: UniquePtr<Point>)
    ensures
        boxed@ == (Point { x: 32, y: 23 }),
{
    let p = Point { x: 32, y: 23 };
    let boxed = UniquePtr::allocate(p);
    boxed
}

/// Dereferencing an owner of a copyable payload copies the payload out, as
/// often as the caller likes; the owner stays usable.
pub fn copy_out_twice() -> (copies: (i32, i32))
    ensures
        copies == (5i32, 5i32),
{
    let boxed = UniquePtr::allocate(5i32);
    let first: i32 = *boxed;
    let second: i32 = *boxed;
    (first, second)
}

/// Moving the payload out of an owner ends the owner: the string comes
/// back by value, once.
pub fn move_out_once() -> (s: String)
    ensures
        s@ == Seq::<char>::empty(),
{
    let boxed: UniquePtr<String> = UniquePtr::allocate(String::new());
    boxed.move_out()
}

/// A method of the payload called through the owner, and the payload as
/// it can be shown afterwards.
pub fn call_through_owner() -> (seen: (Play, Point))
    ensures
        seen == (Play::Moving, Point { x: 32, y: 64 }),
{
    let boxed = UniquePtr::allocate(Point { x: 32, y: 64 });
    let play = boxed.move_forward();
    (play, *boxed.dereference())
}

/// The owner has exclusive access, so it can write to its payload.
pub fn append_through_owner() -> (s: String)
    ensures
        s@ == "hjkl1"@ + "!!!"@,
{
    let mut boxed = UniquePtr::allocate(String::from_str("hjkl1"));
    boxed.append("!!!");
    boxed.move_out()
}

/// A clone of an owner owns a payload of its own: a write through the
/// clone leaves the first owner as it was, and the two compare unequal.
pub fn clones_are_independent() -> (same: bool)
    ensures
        !same,
{
    let boxed = UniquePtr::allocate(String::from_str("hjkl1"));
    let mut another = UniquePtr::allocate(boxed.dereference().clone());
    another.append("!");
    proof {
        reveal_strlit("hjkl1");
        reveal_strlit("!");
        assert(another@@.len() == 6);
        assert(boxed@@.len() == 5);
    }
    *boxed.dereference() == *another.dereference()
}

/// Passing an owner by value hands the allocation to the callee.
pub fn take_ownership(boxed: UniquePtr<Point>) -> (seen: Point)
    ensures
        seen == boxed@,
{
    boxed.move_out()
}

/// An owner passed by value is gone from the caller afterwards.
pub fn pass_by_value() -> (seen: Point)
    ensures
        seen == (Point { x: 0, y: 1 }),
{
    let boxed = UniquePtr::allocate(Point { x: 0, y: 1 });
    take_ownership(boxed)
}

/// An owner can itself be borrowed: shared, to call through it, and
/// exclusively, to overwrite its payload in place.
pub fn borrow_the_owner() -> (seen: (Play, Play, Point, Point))
    ensures
        seen == (Play::Playing, Play::Playing, Point { x: 10, y: 11 }, Point { x: 0, y: 0 }),
{
    let boxed = UniquePtr::allocate(Point { x: 10, y: 11 });
    let direct = boxed.play();
    let ref_boxed = &boxed;
    let through_ref = ref_boxed.play();
    let shown = *ref_boxed.dereference();
    let mut boxed = UniquePtr::allocate(Point { x: 0, y: 1 });
    let mut_boxed = &mut boxed;
    **mut_boxed = Point { x: 0, y: 0 };
    (direct, through_ref, shown, *boxed.dereference())
}

/// The receivers that an owner can supply: a shared borrow, an exclusive
/// borrow, and the payload by value, which ends the owner.
pub fn receivers_of_an_owner() -> (plays: Vec<Play>)
    ensures
        plays@ == seq![Play::ByRef, Play::ByMutRef, Play::ByValue],
{
    let mut boxed = UniquePtr::allocate(Point { x: 10, y: 20 });
    let mut plays: Vec<Play> = Vec::new();
    plays.push(boxed.play_ref());
    plays.push(boxed.play_mut_ref());
    plays.push(boxed.move_out().play_own());
    plays
}

/// The owner itself as a receiver: the method takes the allocation.
pub fn owner_as_receiver() -> (plays: Vec<Play>)
    ensures
        plays@ == seq![Play::ByRef, Play::ByMutRef, Play::ByOwner],
{
    let mut boxed = UniquePtr::allocate(Point { x: 10, y: 20 });
    let mut plays: Vec<Play> = Vec::new();
    plays.push(boxed.play_ref());
    plays.push(boxed.play_mut_ref());
    plays.push(Point::play_box_own(boxed));
    plays
}

/// Owners kept in a vector are borrowed in place, and a borrowed payload
/// can be copied out.
pub fn owners_in_a_vector() -> (copied: i32)
    ensures
        copied == 2,
{
    let mut arr: Vec<UniquePtr<i32>> = Vec::new();
    arr.push(UniquePtr::allocate(2));
    arr.push(UniquePtr::allocate(0));
    let first = &arr[0];
    let second = &arr[1];
    *first.dereference()
}

} // verus!

//! Walks with the shared ownership pointers.
use vstd::prelude::*;
use vstd::string::StringExecFns;
use crate::atomic_shared::AtomicHeap;
use crate::atomic_shared::AtomicSharedPtr;
use crate::shared::Heap;
use crate::tour::Play;
use crate::tour::Point;
use crate::unique::UniquePtr;

verus! {

/// A string moved into a unique owner: the name it had before is dead, and
/// only the owner reaches it.
pub fn moved_into_owner() -> (owner: UniquePtr<String>)
    ensures
        owner@@ == "hello world!"@,
{
    let s = String::from_str("hello world!");
    let a = UniquePtr::allocate(s);
    a
}

/// Shared ownership lets two names own one string. Returns the count right
/// after the allocation, and the count as each of the two aliases sees it
/// after the clone.
pub fn count_after_clone() -> (counts: (usize, usize, usize))
    ensures
        counts == (1usize, 2usize, 2usize),
{
    let mut heap: Heap<String> = Heap::new();
    let a = heap.allocate(String::from_str("hello world!"));
    let created = heap.strong_count(&a);
    let b = heap.clone_ptr(&a);
    let seen_by_a = heap.strong_count(&a);
    let seen_by_b = heap.strong_count(&b);
    heap.release(b);
    heap.release(a);
    (created, seen_by_a, seen_by_b)
}

/// The count through `n` clones and their end. Returns the count right
/// after the clones and the count after all of them have ended.
pub fn count_through_clones(n: usize) -> (counts: (usize, usize))
    requires
        n < usize::MAX,
    ensures
        counts.0 == n + 1,
        counts.1 == 1,
{
    let mut heap: Heap<u8> = Heap::new();
    let ptr = heap.allocate(0);
    let clones = heap.clone_many(&ptr, n);
    let after_clones = heap.strong_count(&ptr);
    heap.release_all(ptr.addr(), clones);
    let after_drops = heap.strong_count(&ptr);
    heap.release(ptr);
    (after_clones, after_drops)
}

/// Cloning a shared pointer leaves the payload where it is and needs no
/// clone of the payload: both aliases show the same record, and a method
/// of the record can be called through either.
pub fn two_aliases_one_record() -> (seen: (Point, Point, Play, Play))
    ensures
        seen == (Point { x: 10, y: 20 }, Point { x: 10, y: 20 }, Play::Playing, Play::Playing),
{
    let mut heap: AtomicHeap<Point> = AtomicHeap::new();
    let arced = heap.allocate(Point { x: 10, y: 20 });
    let another = heap.clone_ptr(&arced);
    let first = *heap.get(&arced);
    let second = *heap.get(&another);
    let played = heap.get(&arced).play();
    let played_again = heap.get(&another).play();
    heap.release(another);
    heap.release(arced);
    (first, second, played, played_again)
}

/// A method that takes a shared owner of a point as its receiver: the
/// alias ends with the call.
pub fn play_shared_own(heap: &mut AtomicHeap<Point>, owner: AtomicSharedPtr) -> (play: Play)
    requires
        old(heap).wf(),
        old(heap).owns(&owner),
    ensures
        play == Play::BySharedOwner,
        final(heap).wf(),
        final(heap).spec_len() == old(heap).spec_len(),
        final(heap).strong_at(owner.spec_addr() as int) == old(heap).strong_at(
            owner.spec_addr() as int,
        ) - 1,
        final(heap).same_elsewhere(old(heap), owner.spec_addr() as int),
{
    heap.release(owner);
    Play::BySharedOwner
}

/// The receivers that the two kinds of owner can supply. A unique owner
/// lends its payload shared or exclusively and can be the receiver itself;
/// a shared owner lends its payload shared only and can be the receiver
/// itself.
pub fn receivers_of_owners() -> (plays: Vec<Play>)
    ensures
        plays@ == seq![
            Play::ByRef,
            Play::ByMutRef,
            Play::ByOwner,
            Play::ByRef,
            Play::BySharedOwner,
        ],
{
    let mut plays: Vec<Play> = Vec::new();
    let mut boxed = UniquePtr::allocate(Point { x: 10, y: 20 });
    plays.push(boxed.play_ref());
    plays.push(boxed.play_mut_ref());
    plays.push(Point::play_box_own(boxed));
    let mut heap: AtomicHeap<Point> = AtomicHeap::new();
    let arced = heap.allocate(Point { x: 10, y: 20 });
    plays.push(heap.get(&arced).play_ref());
    plays.push(play_shared_own(&mut heap, arced));
    plays
}

/// The life of one shared record. Returns the count after two clones, the
/// count after the first alias and one clone have ended, the count after the
/// last alias has ended, and how often the finalizer has run by then.
pub fn life_of_a_record() -> (seen: (usize, usize, usize, usize))
    ensures
        seen == (3usize, 1usize, 0usize, 1usize),
{
    let mut heap: AtomicHeap<Point> = AtomicHeap::new();
    let base = heap.allocate(Point { x: 10, y: 20 });
    let addr: usize = base.addr();
    let first = heap.clone_ptr(&base);
    let second = heap.clone_ptr(&base);
    let after_clones = heap.strong_count(&base);
    heap.release(base);
    heap.release(first);
    let after_two_ended = heap.strong_count(&second);
    heap.release(second);
    let after_all_ended = heap.strong_count_at(addr);
    (after_clones, after_two_ended, after_all_ended, heap.finalizer_runs())
}

} // verus!

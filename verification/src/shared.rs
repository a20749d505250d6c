//! Single-threaded shared ownership.
//!
//! The counters of this heap are bare integers, changed without any
//! synchronization. The heap and its aliases are neither `Send` nor `Sync`:
//! the compiler keeps them on the thread that made them, so no two threads
//! ever clone or release at the same time.
use vstd::prelude::*;
use crate::counter::PlainCount;
use crate::heap::Alias;
use crate::heap::CountedHeap;

verus! {

/// A heap whose cells count their owners with bare integers.
pub type Heap<T> = CountedHeap<T, PlainCount>;

/// One owning alias of a cell of a `Heap`.
pub type SharedPtr = Alias<PlainCount>;

} // verus!

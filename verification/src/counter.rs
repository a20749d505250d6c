//! Reference counters: the bookkeeping half of a heap cell.
//!
//! A heap is written once, against the `Counter` capability. `PlainCount`
//! is an ordinary integer for a heap that one thread of execution uses.
//! `AtomicCount` keeps its value in a `StateCell` and changes it only by
//! fetch-and-modify steps with the orderings that let the last owner see
//! every write of the earlier ones.
use vstd::prelude::*;
use crate::state_cell::MemOrder;
use crate::state_cell::StateCell;

verus! {

/// What a heap asks of the counter of a cell.
pub trait Counter: Sized {
    /// The number of owning aliases that the counter has recorded.
    spec fn count(&self) -> usize;

    /// A counter for a cell with its first owner.
    fn one() -> (counter: Self)
        ensures
            counter.count() == 1,
    ;

    /// Reads the counter.
    fn current(&self) -> (count: usize)
        ensures
            count == self.count(),
    ;

    /// Records one more owner and returns the count from before.
    fn increment(&mut self) -> (prior: usize)
        requires
            old(self).count() < usize::MAX,
        ensures
            prior == old(self).count(),
            final(self).count() == prior + 1,
    ;

    /// Records one owner fewer and returns the count from before: the
    /// caller that is handed `1` was the last owner.
    fn decrement(&mut self) -> (prior: usize)
        requires
            old(self).count() >= 1,
        ensures
            prior == old(self).count(),
            final(self).count() == prior - 1,
    ;
}

/// A counter for single-threaded sharing: a bare integer.
///
/// The counter is neither `Send` nor `Sync`, and so neither is a heap that
/// counts with it nor an alias of one of its cells: the compiler keeps them
/// on the thread that made them.
pub struct PlainCount {
    owners: usize,
    one_thread: core::marker::PhantomData<std::rc::Rc<()>>,
}

impl Counter for PlainCount {
    closed spec fn count(&self) -> usize {
        self.owners
    }

    fn one() -> (counter: Self) {
        PlainCount { owners: 1, one_thread: core::marker::PhantomData }
    }

    fn current(&self) -> (count: usize) {
        self.owners
    }

    fn increment(&mut self) -> (prior: usize) {
        let prior: usize = self.owners;
        self.owners = prior + 1;
        prior
    }

    fn decrement(&mut self) -> (prior: usize) {
        let prior: usize = self.owners;
        self.owners = prior - 1;
        prior
    }
}

/// A counter for sharing across execution contexts: a state cell changed
/// only by fetch-and-modify steps.
pub struct AtomicCount {
    owners: StateCell,
}

impl AtomicCount {
    /// The ordering of the step that records a new owner. A new owner
    /// already holds an alias, so nothing has to be published to it.
    pub open spec fn spec_increment_order() -> MemOrder {
        MemOrder::Relaxed
    }

    /// The ordering of the step that records the end of an owner. It
    /// publishes that owner's writes to whoever ends last.
    pub open spec fn spec_decrement_order() -> MemOrder {
        MemOrder::Release
    }

    /// The ordering of the read that the last owner makes before the
    /// payload is finalized.
    pub open spec fn spec_reclaim_order() -> MemOrder {
        MemOrder::Acquire
    }

    #[verifier::when_used_as_spec(spec_increment_order)]
    pub fn increment_order() -> (order: MemOrder)
        ensures
            order == Self::spec_increment_order(),
    {
        MemOrder::Relaxed
    }

    #[verifier::when_used_as_spec(spec_decrement_order)]
    pub fn decrement_order() -> (order: MemOrder)
        ensures
            order == Self::spec_decrement_order(),
            order.releases(),
    {
        MemOrder::Release
    }

    #[verifier::when_used_as_spec(spec_reclaim_order)]
    pub fn reclaim_order() -> (order: MemOrder)
        ensures
            order == Self::spec_reclaim_order(),
            order.acquires(),
    {
        MemOrder::Acquire
    }
}

impl Counter for AtomicCount {
    closed spec fn count(&self) -> usize {
        self.owners@
    }

    fn one() -> (counter: Self) {
        AtomicCount { owners: StateCell::new(1) }
    }

    fn current(&self) -> (count: usize) {
        self.owners.load(MemOrder::Relaxed)
    }

    fn increment(&mut self) -> (prior: usize) {
        self.owners.fetch_add(1, AtomicCount::increment_order())
    }

    fn decrement(&mut self) -> (prior: usize) {
        let prior: usize = self.owners.fetch_sub(1, AtomicCount::decrement_order());
        if prior == 1 {
            let settled: usize = self.owners.load(AtomicCount::reclaim_order());
            assert(settled == 0);
        }
        prior
    }
}

} // verus!

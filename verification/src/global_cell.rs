//! The global state cell as a program shares it: one numeric location that
//! any number of threads read and change without a lock.
//!
//! Every operation here is one indivisible step on a hardware atomic. What
//! a step reads depends on the steps that other threads have made before
//! it, so a contract here states only what holds whatever they did. What
//! one step does to the value it finds is the contract of the operation of
//! the same name on `StateCell`.
use vstd::prelude::*;
use std::sync::atomic::AtomicUsize;
use std::sync::atomic::Ordering;
use crate::state_cell::MemOrder;

verus! {

/// The ordering that a compare-and-swap uses for the read it makes when
/// the comparison fails: the part of `order` that a read can ask for.
pub open spec fn spec_failure_order(order: MemOrder) -> MemOrder {
    match order {
        MemOrder::Relaxed => MemOrder::Relaxed,
        MemOrder::Acquire => MemOrder::Acquire,
        MemOrder::Release => MemOrder::Relaxed,
        MemOrder::AcqRel => MemOrder::Acquire,
        MemOrder::SeqCst => MemOrder::SeqCst,
    }
}

#[verifier::when_used_as_spec(spec_failure_order)]
pub fn failure_order(order: MemOrder) -> (failure: MemOrder)
    ensures
        failure == spec_failure_order(order),
        failure.fits_load(),
        failure.acquires() == order.acquires(),
{
    match order {
        MemOrder::Relaxed => MemOrder::Relaxed,
        MemOrder::Acquire => MemOrder::Acquire,
        MemOrder::Release => MemOrder::Relaxed,
        MemOrder::AcqRel => MemOrder::Acquire,
        MemOrder::SeqCst => MemOrder::SeqCst,
    }
}

/// The ordering of the platform that `order` names: the one of the same
/// name.
fn platform_order(order: MemOrder) -> (platform: Ordering)
    ensures
        platform == match order {
            MemOrder::Relaxed => Ordering::Relaxed,
            MemOrder::Acquire => Ordering::Acquire,
            MemOrder::Release => Ordering::Release,
            MemOrder::AcqRel => Ordering::AcqRel,
            MemOrder::SeqCst => Ordering::SeqCst,
        },
{
    match order {
        MemOrder::Relaxed => Ordering::Relaxed,
        MemOrder::Acquire => Ordering::Acquire,
        MemOrder::Release => Ordering::Release,
        MemOrder::AcqRel => Ordering::AcqRel,
        MemOrder::SeqCst => Ordering::SeqCst,
    }
}

/// A numeric location shared by every thread of the program.
pub struct GlobalCell {
    value: AtomicUsize,
}

impl GlobalCell {
    /// A cell that holds `initial`.
    pub fn new(initial: usize) -> (cell: Self) {
        GlobalCell { value: AtomicUsize::new(initial) }
    }

    /// Reads the cell: the value that the latest step before this one
    /// left.
    pub fn load(&self, order: MemOrder) -> (value: usize)
        requires
            order.fits_load(),
    {
        match order {
            MemOrder::Relaxed => self.value.load(Ordering::Relaxed),
            MemOrder::Acquire => self.value.load(Ordering::Acquire),
            _ => self.value.load(Ordering::SeqCst),
        }
    }

    /// Adds `delta`, wrapping on overflow, and returns the value from before
    /// the step.
    pub fn fetch_add(&self, delta: usize, order: MemOrder) -> (prior: usize) {
        self.value.fetch_add(delta, platform_order(order))
    }

    /// Writes `new` if the cell holds `expected` and says whether it did.
    pub fn compare_and_swap(&self, expected: usize, new: usize, order: MemOrder) -> (swapped: bool) {
        let failure = failure_order(order);
        let outcome = match failure {
            MemOrder::Relaxed => self.value.compare_exchange(
                expected,
                new,
                platform_order(order),
                Ordering::Relaxed,
            ),
            MemOrder::Acquire => self.value.compare_exchange(
                expected,
                new,
                platform_order(order),
                Ordering::Acquire,
            ),
            _ => self.value.compare_exchange(
                expected,
                new,
                platform_order(order),
                Ordering::SeqCst,
            ),
        };
        outcome.is_ok()
    }
}

} // verus!

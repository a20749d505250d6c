//! The global state cell: one numeric location whose operations are
//! indivisible steps.
//!
//! A cell is changed only through `load`, `fetch_add`, `fetch_sub` and
//! `compare_and_swap`. Each is one step of a linear history: it sees the
//! value that the step before it left and leaves one value for the step
//! after it. The contracts below are the meaning of one such step; the
//! laws in `history` speak of whole histories.
use vstd::prelude::*;

verus! {

/// The memory ordering that a caller asks of one step.
///
/// The ordering constrains how a step is ordered with the caller's other
/// memory accesses. It never changes the value that a step reads or writes.
#[derive(Clone, Copy, Debug, PartialEq, Eq, Structural)]
pub enum MemOrder {
    /// The step is indivisible and nothing more.
    Relaxed,
    /// The step sees what a releasing step that it reads from published.
    Acquire,
    /// The step publishes the earlier writes of its caller.
    Release,
    /// The step acquires with its read and releases with its write.
    AcqRel,
    /// As `AcqRel`, and all such steps stand in one order that every
    /// thread agrees on.
    SeqCst,
}

impl MemOrder {
    /// Whether a step with this ordering sees every write made before a
    /// releasing step that it reads from.
    pub open spec fn spec_acquires(self) -> bool {
        self == MemOrder::Acquire || self == MemOrder::AcqRel || self == MemOrder::SeqCst
    }

    /// Whether a step with this ordering publishes every earlier write of
    /// its caller.
    pub open spec fn spec_releases(self) -> bool {
        self == MemOrder::Release || self == MemOrder::AcqRel || self == MemOrder::SeqCst
    }

    /// Whether a read may ask for this ordering. A read writes nothing, so
    /// it has nothing to publish: asking a read to release is a misuse.
    pub open spec fn spec_fits_load(self) -> bool {
        self == MemOrder::Relaxed || self == MemOrder::Acquire || self == MemOrder::SeqCst
    }

    #[verifier::when_used_as_spec(spec_fits_load)]
    pub fn fits_load(self) -> (yes: bool)
        ensures
            yes == self.spec_fits_load(),
    {
        match self {
            MemOrder::Relaxed | MemOrder::Acquire | MemOrder::SeqCst => true,
            _ => false,
        }
    }

    #[verifier::when_used_as_spec(spec_acquires)]
    pub fn acquires(self) -> (yes: bool)
        ensures
            yes == self.spec_acquires(),
    {
        match self {
            MemOrder::Acquire | MemOrder::AcqRel | MemOrder::SeqCst => true,
            _ => false,
        }
    }

    #[verifier::when_used_as_spec(spec_releases)]
    pub fn releases(self) -> (yes: bool)
        ensures
            yes == self.spec_releases(),
    {
        match self {
            MemOrder::Release | MemOrder::AcqRel | MemOrder::SeqCst => true,
            _ => false,
        }
    }
}

/// The value that `fetch_add` leaves: the sum, wrapped to the width of
/// `usize`.
pub open spec fn wrapping_sum(value: usize, delta: usize) -> usize {
    if value + delta > usize::MAX {
        (value + delta - usize::MAX - 1) as usize
    } else {
        (value + delta) as usize
    }
}

/// The value that `fetch_sub` leaves: the difference, wrapped to the width
/// of `usize`.
pub open spec fn wrapping_difference(value: usize, delta: usize) -> usize {
    if value < delta {
        (value - delta + usize::MAX + 1) as usize
    } else {
        (value - delta) as usize
    }
}

/// A numeric location that lives as long as its owner lets it and is
/// touched only through the steps below.
pub struct StateCell {
    value: usize,
}

impl StateCell {
    /// The value that the cell holds.
    pub closed spec fn view(&self) -> usize {
        self.value
    }

    /// A cell that holds `initial`.
    pub fn new(initial: usize) -> (cell: Self)
        ensures
            cell@ == initial,
    {
        StateCell { value: initial }
    }

    /// Reads the cell.
    pub fn load(&self, order: MemOrder) -> (value: usize)
        requires
            order.fits_load(),
        ensures
            value == self@,
    {
        self.value
    }

    /// Adds `delta`, wrapping on overflow, and returns the value from before
    /// the step.
    pub fn fetch_add(&mut self, delta: usize, order: MemOrder) -> (prior: usize)
        ensures
            prior == old(self)@,
            final(self)@ == wrapping_sum(old(self)@, delta),
    {
        let prior: usize = self.value;
        self.value = prior.wrapping_add(delta);
        prior
    }

    /// Subtracts `delta`, wrapping below zero, and returns the value from
    /// before the step.
    pub fn fetch_sub(&mut self, delta: usize, order: MemOrder) -> (prior: usize)
        ensures
            prior == old(self)@,
            final(self)@ == wrapping_difference(old(self)@, delta),
    {
        let prior: usize = self.value;
        self.value = prior.wrapping_sub(delta);
        prior
    }

    /// Writes `new` if the cell holds `expected` and says whether it did.
    pub fn compare_and_swap(&mut self, expected: usize, new: usize, order: MemOrder) -> (swapped:
        bool)
        ensures
            swapped == (old(self)@ == expected),
            final(self)@ == if old(self)@ == expected {
                new
            } else {
                old(self)@
            },
    {
        if self.value == expected {
            self.value = new;
            true
        } else {
            false
        }
    }
}

/// Wrapping commutes with adding: if `value` is `total` wrapped to the
/// width of `usize`, then `wrapping_sum(value, delta)` is `total + delta`
/// wrapped.
pub proof fn lemma_wrapping_sum_wraps(value: usize, delta: usize, total: int)
    requires
        0 <= total,
        value == total % (usize::MAX + 1),
    ensures
        wrapping_sum(value, delta) == (total + delta) % (usize::MAX + 1),
{
    let modulus = usize::MAX + 1;
    let q = total / modulus;
    vstd::arithmetic::div_mod::lemma_fundamental_div_mod(total, modulus);
    if value + delta > usize::MAX {
        assert(total + delta == (q + 1) * modulus + (value + delta - modulus)) by (nonlinear_arith)
            requires
                total == modulus * q + value,
        ;
        vstd::arithmetic::div_mod::lemma_fundamental_div_mod_converse(
            total + delta,
            modulus,
            q + 1,
            value + delta - modulus,
        );
    } else {
        assert(total + delta == q * modulus + (value + delta)) by (nonlinear_arith)
            requires
                total == modulus * q + value,
        ;
        vstd::arithmetic::div_mod::lemma_fundamental_div_mod_converse(
            total + delta,
            modulus,
            q,
            value + delta,
        );
    }
}

} // verus!

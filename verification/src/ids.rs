//! Identifiers drawn from a global counter.
use vstd::prelude::*;
use vstd::arithmetic::div_mod::lemma_small_mod;
use crate::global_cell::GlobalCell;
use crate::state_cell::lemma_wrapping_sum_wraps;
use crate::state_cell::MemOrder;
use crate::state_cell::StateCell;

verus! {

/// The largest identifier that is ever handed out.
pub const MAX_ID: usize = usize::MAX / 2;

/// The counter cannot hand out another identifier.
#[derive(Clone, Copy, Debug, PartialEq, Eq, Structural)]
pub enum IdError {
    /// The counter was already past `MAX_ID` and was left as it was.
    Exhausted,
    /// The step that drew the identifier took the counter past `MAX_ID`.
    Overflowed,
}

/// What `generate_id` returns on a counter that holds `current`.
pub open spec fn next_id(current: usize) -> Result<usize, IdError> {
    if current > MAX_ID {
        Err(IdError::Exhausted)
    } else if current + 1 > MAX_ID {
        Err(IdError::Overflowed)
    } else {
        Ok((current + 1) as usize)
    }
}

/// What `generate_id` leaves in a counter that held `current`.
pub open spec fn counter_after(current: usize) -> usize {
    if current > MAX_ID {
        current
    } else {
        (current + 1) as usize
    }
}

/// The check before an identifier is drawn: a counter that is already past
/// `MAX_ID` hands out nothing.
pub fn check_before(current: usize) -> (checked: Result<(), IdError>)
    ensures
        checked == if current > MAX_ID {
            Err::<(), IdError>(IdError::Exhausted)
        } else {
            Ok::<(), IdError>(())
        },
{
    if current > MAX_ID {
        Err(IdError::Exhausted)
    } else {
        Ok(())
    }
}

/// The check after an identifier has been drawn: a counter that has just
/// gone past `MAX_ID` has overflowed, and what it holds is no identifier.
pub fn check_after(new_id: usize) -> (checked: Result<usize, IdError>)
    ensures
        checked == if new_id > MAX_ID {
            Err::<usize, IdError>(IdError::Overflowed)
        } else {
            Ok::<usize, IdError>(new_id)
        },
{
    if new_id > MAX_ID {
        Err(IdError::Overflowed)
    } else {
        Ok(new_id)
    }
}

/// Draws the next identifier from `counter`: one more than the counter
/// held. The counter is checked before and after the step that draws, and
/// a value past `MAX_ID` is an error at either check, never a wrapped
/// identifier. A caller treats either error as fatal.
pub fn generate_id(counter: &mut StateCell) -> (drawn: Result<usize, IdError>)
    ensures
        drawn == next_id(old(counter)@),
        final(counter)@ == counter_after(old(counter)@),
{
    let current: usize = counter.load(MemOrder::Relaxed);
    match check_before(current) {
        Err(e) => {
            return Err(e);
        },
        Ok(_) => {},
    }
    counter.fetch_add(1, MemOrder::Relaxed);
    let new_id: usize = counter.load(MemOrder::Relaxed);
    check_after(new_id)
}

/// Draws the next identifier from a counter that other threads may be
/// drawing from at the same time. The steps and the checks are those of
/// `generate_id`; between this thread's steps others may have made theirs,
/// so the identifier is what the counter held when it was read back, and
/// all that is sure of it is that it passed the check.
pub fn generate_shared_id(counter: &GlobalCell) -> (drawn: Result<usize, IdError>)
    ensures
        drawn matches Ok(id) ==> id <= MAX_ID,
{
    let current: usize = counter.load(MemOrder::Relaxed);
    match check_before(current) {
        Err(e) => {
            return Err(e);
        },
        Ok(_) => {},
    }
    counter.fetch_add(1, MemOrder::Relaxed);
    let new_id: usize = counter.load(MemOrder::Relaxed);
    check_after(new_id)
}

/// Something that carries an identifier of its own.
pub struct Factory {
    factory_id: usize,
}

impl Factory {
    /// The identifier of this factory.
    pub closed spec fn spec_factory_id(&self) -> usize {
        self.factory_id
    }

    /// The factory that carries the identifier that was drawn for it, or
    /// the error with which the draw failed.
    pub fn from_drawn(drawn: Result<usize, IdError>) -> (made: Result<Factory, IdError>)
        ensures
            match drawn {
                Ok(id) => made matches Ok(factory) && factory.spec_factory_id() == id,
                Err(e) => made matches Err(failed) && failed == e,
            },
    {
        match drawn {
            Ok(id) => Ok(Factory { factory_id: id }),
            Err(e) => Err(e),
        }
    }

    /// A factory with the next identifier of `counter`.
    pub fn new(counter: &mut StateCell) -> (made: Result<Factory, IdError>)
        ensures
            final(counter)@ == counter_after(old(counter)@),
            match made {
                Ok(factory) => next_id(old(counter)@) == Ok::<usize, IdError>(
                    factory.spec_factory_id(),
                ),
                Err(e) => next_id(old(counter)@) == Err::<usize, IdError>(e),
            },
    {
        Factory::from_drawn(generate_id(counter))
    }

    /// A factory with the next identifier of a counter that is shared
    /// between threads.
    pub fn new_shared(counter: &GlobalCell) -> (made: Result<Factory, IdError>)
        ensures
            made matches Ok(factory) ==> factory.spec_factory_id() <= MAX_ID,
    {
        Factory::from_drawn(generate_shared_id(counter))
    }

    #[verifier::when_used_as_spec(spec_factory_id)]
    pub fn factory_id(&self) -> (id: usize)
        ensures
            id == self.spec_factory_id(),
    {
        self.factory_id
    }
}

/// Counts `requests` requests on `counter`, one step each.
pub fn record_requests(counter: &mut StateCell, requests: usize)
    ensures
        final(counter)@ == (old(counter)@ + requests) % (usize::MAX + 1),
        old(counter)@ + requests <= usize::MAX ==> final(counter)@ == old(counter)@ + requests,
{
    let mut done: usize = 0;
    proof {
        lemma_small_mod(counter@ as nat, (usize::MAX + 1) as nat);
    }
    while done < requests
        invariant
            done <= requests,
            counter@ == (old(counter)@ + done) % (usize::MAX + 1),
        decreases requests - done,
    {
        proof {
            lemma_wrapping_sum_wraps(counter@, 1, old(counter)@ + done);
        }
        counter.fetch_add(1, MemOrder::Relaxed);
        done = done + 1;
    }
    proof {
        if old(counter)@ + requests <= usize::MAX {
            lemma_small_mod((old(counter)@ + requests) as nat, (usize::MAX + 1) as nat);
        }
    }
}

/// Counts `requests` requests on a counter that is shared between threads,
/// one step each.
pub fn record_shared_requests(counter: &GlobalCell, requests: usize) {
    let mut done: usize = 0;
    while done < requests
        invariant
            done <= requests,
        decreases requests - done,
    {
        counter.fetch_add(1, MemOrder::Relaxed);
        done = done + 1;
    }
}

} // verus!

//! Walks with the global state cell.
use vstd::prelude::*;
use vstd::string::StringExecFns;
use crate::ids::record_requests;
use crate::ids::Factory;
use crate::ids::IdError;
use crate::state_cell::MemOrder;
use crate::state_cell::StateCell;
use crate::unique::UniquePtr;

verus! {

/// A counter that starts at zero and counts one hundred requests.
pub fn requests_received() -> (received: usize)
    ensures
        received == 100,
{
    let mut counter = StateCell::new(0);
    record_requests(&mut counter, 100);
    counter.load(MemOrder::Relaxed)
}

/// Three factories made one after another from one counter that starts
/// at zero. Returns the counter after the first and after the third.
pub fn three_factories() -> (seen: Result<(usize, usize), IdError>)
    ensures
        seen == Ok::<(usize, usize), IdError>((1usize, 3usize)),
{
    let mut counter = StateCell::new(0);
    let first = Factory::new(&mut counter);
    if first.is_err() {
        return Err(IdError::Exhausted);
    }
    let after_first = counter.load(MemOrder::Relaxed);
    let second = Factory::new(&mut counter);
    let third = Factory::new(&mut counter);
    let after_third = counter.load(MemOrder::Relaxed);
    Ok((after_first, after_third))
}

/// The settings of a program: two pieces of text.
pub struct Config {
    pub a: String,
    pub b: String,
}

/// The settings that a program installs once, at start-up, and keeps for
/// as long as it runs.
pub fn startup_config() -> (config: Option<UniquePtr<Config>>)
    ensures
        config matches Some(owner) && owner@.a@ == "hello"@ && owner@.b@ == "hjkl1"@,
{
    Some(
        UniquePtr::allocate(
            Config { a: String::from_str("hello"), b: String::from_str("hjkl1") },
        ),
    )
}

/// Settings made by an initializer and handed to the caller, who keeps
/// them for as long as the program runs.
pub fn init() -> (config: Option<UniquePtr<Config>>)
    ensures
        config matches Some(owner) && owner@.a@ == "halo"@ && owner@.b@ == "world"@,
{
    Some(
        UniquePtr::allocate(
            Config { a: String::from_str("halo"), b: String::from_str("world") },
        ),
    )
}

} // verus!

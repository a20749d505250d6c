//! An ownership-and-shared-lifetime runtime.
//!
//! - `unique`: the unique owning pointer, sole owner of one allocation.
//! - `heap`: reference-counted cells and their owning aliases, written
//!   once against a counter.
//! - `counter`: the two counters, a bare integer and a state cell.
//! - `shared`, `atomic_shared`: the heap with each counter, and the turns
//!   that execution contexts take on a shared cell.
//! - `deref`: the dereference protocol.
//! - `finalize`: the destruction protocol.
//! - `capability`: owners of several payload types behind one capability.
//! - `state_cell`, `global_cell`: the global state cell, as one history of
//!   steps and as threads share it.
//! - `history`: what holds of every interleaving of steps.
//! - `ids`: identifiers drawn from a global counter.
//! - `tour`: short verified walks through all of the above.
//!
//! Every operation carries a contract over a mathematical model of the
//! state it touches.
pub mod atomic_shared;
pub mod capability;
pub mod counter;
pub mod deref;
pub mod finalize;
pub mod global_cell;
pub mod heap;
pub mod history;
pub mod ids;
pub mod shared;
pub mod state_cell;
pub mod tour;
pub mod unique;

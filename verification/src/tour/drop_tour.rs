//! Walks with the destruction protocol.
use vstd::prelude::*;
use crate::finalize::ending_trace;
use crate::finalize::Owner;
use crate::finalize::Scope;
use crate::tour::Point;

verus! {

/// The label of the finalizer of the first field type.
pub const HAS_DROP1: u64 = 1;

/// The label of the finalizer of the second field type.
pub const HAS_DROP2: u64 = 2;

/// The label of the finalizer of the composite type.
pub const HAS_TWO_DROPS: u64 = 3;

/// The label of the finalizer of the stand-alone type.
pub const FOO: u64 = 4;

/// The label of the finalizer of a point that has one.
pub const POINT: u64 = 5;

/// A composite with the fields `one` and `two`, declared in that order,
/// where the composite and both field types register a finalizer.
pub fn has_two_drops() -> (owner: Owner)
    ensures
        owner.wf(),
        owner.trace() == seq![HAS_TWO_DROPS, HAS_DROP2, HAS_DROP1],
{
    let two = Owner::with_finalizer(HAS_DROP2);
    let one = Owner::with_finalizer(HAS_DROP1);
    let whole = Owner::with_finalizer(HAS_TWO_DROPS);
    let whole = whole.declare_field(one).unwrap();
    let whole = whole.declare_field(two).unwrap();
    proof {
        reveal_with_fuel(ending_trace, 3);
        assert(one.trace() =~= seq![HAS_DROP1]);
        assert(two.trace() =~= seq![HAS_DROP2]);
        assert(whole.fields() =~= seq![one, two]);
        assert(ending_trace(whole.fields(), 2) =~= seq![HAS_DROP2, HAS_DROP1]);
        assert(whole.trace() =~= seq![HAS_TWO_DROPS, HAS_DROP2, HAS_DROP1]);
    }
    whole
}

/// A block that declares a composite and then a stand-alone value and
/// runs to its end. The later local ends first; the composite runs its own
/// finalizer and then ends its fields, last-declared first.
pub fn end_of_block() -> (ran: Vec<u64>)
    ensures
        ran@ == seq![FOO, HAS_TWO_DROPS, HAS_DROP2, HAS_DROP1],
{
    let mut scope = Scope::new();
    let x = has_two_drops();
    scope.declare(x);
    let foo = Owner::with_finalizer(FOO);
    scope.declare(foo);
    proof {
        reveal_with_fuel(ending_trace, 3);
        assert(foo.trace() =~= seq![FOO]);
        assert(scope.locals() =~= seq![x, foo]);
        assert(ending_trace(scope.locals(), 2) =~= seq![
            FOO,
            HAS_TWO_DROPS,
            HAS_DROP2,
            HAS_DROP1,
        ]);
    }
    scope.end()
}

/// A finalizer cannot be called by name. A value is released early by
/// moving it away: its finalizer has run by the time the release returns,
/// and nothing is left to run at the end of the block.
pub fn release_early() -> (ran: (Vec<u64>, Vec<u64>))
    ensures
        ran.0@ == seq![FOO],
        ran.1@ == seq![FOO],
{
    let mut scope = Scope::new();
    let foo = Owner::with_finalizer(FOO);
    let slot = scope.declare(foo);
    proof {
        assert(scope.locals() =~= seq![foo]);
        assert(foo.trace() =~= seq![FOO]);
    }
    scope.release_now(slot);
    let ghost after = scope.ran();
    proof {
        assert(scope.locals() =~= Seq::<Owner>::empty());
        assert(after =~= seq![FOO]);
    }
    let by_release = scope.ran_so_far();
    (by_release, scope.end())
}

/// Registering a finalizer for a type runs nothing: as long as no value of
/// the type is made, none ends.
pub fn drop_example() -> (ran: Vec<u64>)
    ensures
        ran@ == Seq::<u64>::empty(),
{
    let scope = Scope::new();
    proof {
        assert(ending_trace(scope.locals(), 0) =~= Seq::<u64>::empty());
    }
    scope.end()
}

/// A type with copy semantics is duplicated by assignment: both names hold
/// the record afterwards. Such a type cannot register a finalizer; the
/// result says what the attempt gives.
pub fn copy_example() -> (seen: (Point, Point, bool))
    ensures
        seen == (Point { x: 10, y: 23 }, Point { x: 10, y: 23 }, false),
{
    let first = Point { x: 10, y: 23 };
    let second = first;
    let described = Owner::plain(POINT).mark_copy().unwrap();
    let with_finalizer = described.register_finalizer();
    (first, second, with_finalizer.is_ok())
}

} // verus!

//! Histories: what concurrent use of a cell or a counter amounts to.
//!
//! Steps on a state cell are indivisible, so whatever several execution
//! contexts do to one cell happens in some order, one step after another.
//! A history is such an order. The laws here hold of every history that
//! the contexts' programs allow, and so of every interleaving.
use vstd::prelude::*;
use vstd::arithmetic::div_mod::lemma_small_mod;
use crate::state_cell::lemma_wrapping_sum_wraps;
use crate::state_cell::wrapping_sum;
use crate::state_cell::MemOrder;
use crate::state_cell::StateCell;

verus! {

/// One `fetch_add` in a history: the execution context that made it and
/// what it added.
pub struct AddStep {
    pub context: nat,
    pub delta: usize,
}

/// The value of a cell that held `initial` after the steps of `history`,
/// taken in order.
pub open spec fn replay_adds(initial: usize, history: Seq<AddStep>) -> usize
    decreases history.len(),
{
    if history.len() == 0 {
        initial
    } else {
        wrapping_sum(replay_adds(initial, history.drop_last()), history.last().delta)
    }
}

/// How many steps of `history` the execution context `context` made.
pub open spec fn adds_by(history: Seq<AddStep>, context: nat) -> nat
    decreases history.len(),
{
    if history.len() == 0 {
        0
    } else {
        adds_by(history.drop_last(), context) + if history.last().context == context {
            1nat
        } else {
            0nat
        }
    }
}

/// A history in which each of `contexts` execution contexts adds one to
/// the cell `each` times, and nothing else happens.
pub open spec fn counting_history(history: Seq<AddStep>, contexts: nat, each: nat) -> bool {
    &&& forall|i: int|
        0 <= i < history.len() ==> (#[trigger] history[i]).context < contexts && history[i].delta
            == 1
    &&& forall|context: nat| context < contexts ==> adds_by(history, context) == each
}

/// How many steps of `history` the first `contexts` execution contexts
/// made between them.
pub open spec fn adds_below(history: Seq<AddStep>, contexts: nat) -> nat
    decreases contexts,
{
    if contexts == 0 {
        0
    } else {
        adds_below(history, (contexts - 1) as nat) + adds_by(history, (contexts - 1) as nat)
    }
}

proof fn lemma_adds_below_step(history: Seq<AddStep>, contexts: nat)
    requires
        history.len() > 0,
    ensures
        adds_below(history, contexts) == adds_below(history.drop_last(), contexts) + if history.last().context
            < contexts {
            1nat
        } else {
            0nat
        },
    decreases contexts,
{
    if contexts > 0 {
        lemma_adds_below_step(history, (contexts - 1) as nat);
    }
}

proof fn lemma_adds_below_is_len(history: Seq<AddStep>, contexts: nat)
    requires
        forall|i: int| 0 <= i < history.len() ==> (#[trigger] history[i]).context < contexts,
    ensures
        adds_below(history, contexts) == history.len(),
    decreases history.len(),
{
    if history.len() == 0 {
        lemma_adds_below_empty(history, contexts);
    } else {
        let front = history.drop_last();
        assert forall|i: int| 0 <= i < front.len() implies (#[trigger] front[i]).context
            < contexts by {
            assert(front[i] == history[i]);
        }
        lemma_adds_below_is_len(front, contexts);
        lemma_adds_below_step(history, contexts);
        assert(history.last() == history[history.len() - 1]);
    }
}

proof fn lemma_adds_below_empty(history: Seq<AddStep>, contexts: nat)
    requires
        history.len() == 0,
    ensures
        adds_below(history, contexts) == 0,
    decreases contexts,
{
    if contexts > 0 {
        lemma_adds_below_empty(history, (contexts - 1) as nat);
    }
}

proof fn lemma_adds_below_even(history: Seq<AddStep>, contexts: nat, each: nat)
    requires
        forall|context: nat| context < contexts ==> adds_by(history, context) == each,
    ensures
        adds_below(history, contexts) == contexts * each,
    decreases contexts,
{
    if contexts > 0 {
        lemma_adds_below_even(history, (contexts - 1) as nat, each);
        assert((contexts - 1) * each + each == contexts * each) by (nonlinear_arith);
    } else {
        assert(0 * each == 0) by (nonlinear_arith);
    }
}

/// A history of steps that each add one leaves the initial value plus the
/// number of steps, wrapped to the width of `usize`.
pub proof fn lemma_replay_ones(initial: usize, history: Seq<AddStep>)
    requires
        forall|i: int| 0 <= i < history.len() ==> (#[trigger] history[i]).delta == 1,
    ensures
        replay_adds(initial, history) == (initial + history.len()) % (usize::MAX + 1),
    decreases history.len(),
{
    if history.len() == 0 {
        lemma_small_mod(initial as nat, (usize::MAX + 1) as nat);
    } else {
        let front = history.drop_last();
        assert forall|i: int| 0 <= i < front.len() implies (#[trigger] front[i]).delta == 1 by {
            assert(front[i] == history[i]);
        }
        lemma_replay_ones(initial, front);
        assert(history.last() == history[history.len() - 1]);
        lemma_wrapping_sum_wraps(replay_adds(initial, front), 1, initial + front.len());
    }
}

/// However the steps of the execution contexts interleave, a cell to which
/// each of `contexts` contexts adds one `each` times settles at the
/// initial value plus `contexts * each`, wrapped to the width of `usize`.
pub proof fn lemma_counter_settles(initial: usize, history: Seq<AddStep>, contexts: nat, each: nat)
    requires
        counting_history(history, contexts, each),
    ensures
        history.len() == contexts * each,
        replay_adds(initial, history) == (initial + contexts * each) % (usize::MAX + 1),
        initial + contexts * each <= usize::MAX ==> replay_adds(initial, history) == initial
            + contexts * each,
{
    lemma_adds_below_is_len(history, contexts);
    lemma_adds_below_even(history, contexts, each);
    lemma_replay_ones(initial, history);
    if initial + contexts * each <= usize::MAX {
        lemma_small_mod((initial + contexts * each) as nat, (usize::MAX + 1) as nat);
    }
}

/// One `fetch_add` to perform: the execution context that makes it and
/// what it adds.
#[derive(Clone, Copy, Debug, PartialEq, Eq, Structural)]
pub struct Add {
    pub context: usize,
    pub delta: usize,
}

/// The history that `adds` amount to when they are performed in order.
pub open spec fn add_steps(adds: Seq<Add>) -> Seq<AddStep> {
    Seq::new(adds.len(), |i: int| AddStep { context: adds[i].context as nat, delta: adds[i].delta })
}

/// Performs `adds` on `cell`, one step after another in the order given.
pub fn perform_adds(cell: &mut StateCell, adds: &Vec<Add>)
    ensures
        final(cell)@ == replay_adds(old(cell)@, add_steps(adds@)),
{
    let ghost history = add_steps(adds@);
    let mut i: usize = 0;
    proof {
        assert(history.take(0).len() == 0);
    }
    while i < adds.len()
        invariant
            i <= adds@.len(),
            history == add_steps(adds@),
            cell@ == replay_adds(old(cell)@, history.take(i as int)),
        decreases adds@.len() - i,
    {
        proof {
            assert(history.take(i + 1).drop_last() == history.take(i as int));
            assert(history.take(i + 1).last() == history[i as int]);
        }
        cell.fetch_add(adds[i].delta, MemOrder::Relaxed);
        i = i + 1;
    }
    proof {
        assert(history.take(i as int) == history);
    }
}

/// One step on the counter of a shared cell: the execution context that
/// made it, and whether it cloned an alias or released one.
pub struct OwnerStep {
    pub context: nat,
    pub clones: bool,
}

/// The count of a cell that had `count` owners after the steps of
/// `history`, taken in order.
pub open spec fn replay_owners(count: int, history: Seq<OwnerStep>) -> int
    decreases history.len(),
{
    if history.len() == 0 {
        count
    } else if history.last().clones {
        replay_owners(count, history.drop_last()) + 1
    } else {
        replay_owners(count, history.drop_last()) - 1
    }
}

/// How often the finalizer runs during `history` on a cell that had
/// `count` owners: once for each release that takes the count from one to
/// zero.
pub open spec fn finalizer_runs(count: int, history: Seq<OwnerStep>) -> nat
    decreases history.len(),
{
    if history.len() == 0 {
        0
    } else {
        finalizer_runs(count, history.drop_last()) + if !history.last().clones && replay_owners(
            count,
            history.drop_last(),
        ) == 1 {
            1nat
        } else {
            0nat
        }
    }
}

/// How many aliases the execution context `context` has cloned in
/// `history`.
pub open spec fn clones_by(history: Seq<OwnerStep>, context: nat) -> nat
    decreases history.len(),
{
    if history.len() == 0 {
        0
    } else {
        clones_by(history.drop_last(), context) + if history.last().context == context
            && history.last().clones {
            1nat
        } else {
            0nat
        }
    }
}

/// How many of the aliases that `context` cloned in `history` it still
/// holds at the end.
pub open spec fn held_by(history: Seq<OwnerStep>, context: nat) -> int
    decreases history.len(),
{
    if history.len() == 0 {
        0
    } else if history.last().context != context {
        held_by(history.drop_last(), context)
    } else if history.last().clones {
        held_by(history.drop_last(), context) + 1
    } else {
        held_by(history.drop_last(), context) - 1
    }
}

/// A history in which each of `contexts` execution contexts clones an
/// alias and releases it again, time after time, and nothing else happens:
/// no context ever holds more than the one alias it has just cloned, or
/// releases one that it does not hold, and none holds one at the end.
pub open spec fn balanced_history(history: Seq<OwnerStep>, contexts: nat) -> bool {
    &&& forall|i: int| 0 <= i < history.len() ==> (#[trigger] history[i]).context < contexts
    &&& forall|n: int, context: nat|
        0 <= n <= history.len() && context < contexts ==> 0 <= #[trigger] held_by(
            history.take(n),
            context,
        ) <= 1
    &&& forall|context: nat| context < contexts ==> held_by(history, context) == 0
}

/// A balanced history in which each execution context makes `pairs` pairs
/// of a clone and a release.
pub open spec fn paired_history(history: Seq<OwnerStep>, contexts: nat, pairs: nat) -> bool {
    &&& balanced_history(history, contexts)
    &&& forall|context: nat| context < contexts ==> clones_by(history, context) == pairs
}

/// How many aliases the first `contexts` execution contexts hold between
/// them at the end of `history`.
pub open spec fn held_below(history: Seq<OwnerStep>, contexts: nat) -> int
    decreases contexts,
{
    if contexts == 0 {
        0
    } else {
        held_below(history, (contexts - 1) as nat) + held_by(history, (contexts - 1) as nat)
    }
}

proof fn lemma_held_below_step(history: Seq<OwnerStep>, contexts: nat)
    requires
        history.len() > 0,
    ensures
        held_below(history, contexts) == held_below(history.drop_last(), contexts) + if history.last().context
            >= contexts {
            0int
        } else if history.last().clones {
            1int
        } else {
            -1int
        },
    decreases contexts,
{
    if contexts > 0 {
        lemma_held_below_step(history, (contexts - 1) as nat);
    }
}

proof fn lemma_held_below_empty(history: Seq<OwnerStep>, contexts: nat)
    requires
        history.len() == 0,
    ensures
        held_below(history, contexts) == 0,
    decreases contexts,
{
    if contexts > 0 {
        lemma_held_below_empty(history, (contexts - 1) as nat);
    }
}

proof fn lemma_held_below_bounds(history: Seq<OwnerStep>, contexts: nat)
    requires
        forall|context: nat| context < contexts ==> 0 <= held_by(history, context),
    ensures
        0 <= held_below(history, contexts),
        (forall|context: nat| context < contexts ==> held_by(history, context) == 0)
            ==> held_below(history, contexts) == 0,
    decreases contexts,
{
    if contexts > 0 {
        lemma_held_below_bounds(history, (contexts - 1) as nat);
    }
}

/// The count after a history is the count before it plus the aliases that
/// the execution contexts still hold.
proof fn lemma_count_is_held(count: int, history: Seq<OwnerStep>, contexts: nat)
    requires
        forall|i: int| 0 <= i < history.len() ==> (#[trigger] history[i]).context < contexts,
    ensures
        replay_owners(count, history) == count + held_below(history, contexts),
    decreases history.len(),
{
    if history.len() == 0 {
        lemma_held_below_empty(history, contexts);
    } else {
        let front = history.drop_last();
        assert forall|i: int| 0 <= i < front.len() implies (#[trigger] front[i]).context
            < contexts by {
            assert(front[i] == history[i]);
        }
        lemma_count_is_held(count, front, contexts);
        lemma_held_below_step(history, contexts);
        assert(history.last() == history[history.len() - 1]);
    }
}

proof fn lemma_no_finalizer_in_prefix(count: int, history: Seq<OwnerStep>, contexts: nat, n: int)
    requires
        count >= 1,
        balanced_history(history, contexts),
        0 <= n <= history.len(),
    ensures
        replay_owners(count, history.take(n)) >= count,
        finalizer_runs(count, history.take(n)) == 0,
    decreases n,
{
    let prefix = history.take(n);
    assert forall|i: int| 0 <= i < prefix.len() implies (#[trigger] prefix[i]).context
        < contexts by {
        assert(prefix[i] == history[i]);
    }
    lemma_count_is_held(count, prefix, contexts);
    assert forall|context: nat| context < contexts implies 0 <= held_by(prefix, context) by {
        assert(0 <= held_by(history.take(n), context) <= 1);
    }
    lemma_held_below_bounds(prefix, contexts);
    if n > 0 {
        lemma_no_finalizer_in_prefix(count, history, contexts, n - 1);
        assert(prefix.drop_last() == history.take(n - 1));
    }
}

/// However the steps of the execution contexts interleave, a balanced
/// history leaves the count where it was, never lets it fall below where
/// it was, and never runs the finalizer.
pub proof fn lemma_balanced_history_nets_zero(count: int, history: Seq<OwnerStep>, contexts: nat)
    requires
        count >= 1,
        balanced_history(history, contexts),
    ensures
        replay_owners(count, history) == count,
        finalizer_runs(count, history) == 0,
        forall|n: int|
            0 <= n <= history.len() ==> #[trigger] replay_owners(count, history.take(n)) >= count,
{
    assert(history.take(history.len() as int) == history);
    lemma_no_finalizer_in_prefix(count, history, contexts, history.len() as int);
    lemma_count_is_held(count, history, contexts);
    lemma_held_below_bounds(history, contexts);
    assert forall|n: int| 0 <= n <= history.len() implies #[trigger] replay_owners(
        count,
        history.take(n),
    ) >= count by {
        lemma_no_finalizer_in_prefix(count, history, contexts, n);
    }
}

/// However the steps of `contexts` execution contexts interleave, if each
/// makes `pairs` pairs of a clone and a release, the count ends where it
/// began and the finalizer does not run in between.
pub proof fn lemma_paired_history_nets_zero(
    count: int,
    history: Seq<OwnerStep>,
    contexts: nat,
    pairs: nat,
)
    requires
        count >= 1,
        paired_history(history, contexts, pairs),
    ensures
        replay_owners(count, history) == count,
        finalizer_runs(count, history) == 0,
        forall|n: int|
            0 <= n <= history.len() ==> #[trigger] replay_owners(count, history.take(n)) >= count,
{
    lemma_balanced_history_nets_zero(count, history, contexts);
}

/// The steps by which `context` releases `owners` aliases, one after
/// another.
pub open spec fn releases(context: nat, owners: nat) -> Seq<OwnerStep> {
    Seq::new(owners, |i: int| OwnerStep { context, clones: false })
}

/// Releasing every owner of a cell runs the finalizer once, at the last
/// release, and leaves a count of zero.
pub proof fn lemma_releases_finalize_once(count: int, context: nat, owners: nat)
    requires
        count >= owners,
    ensures
        replay_owners(count, releases(context, owners)) == count - owners,
        finalizer_runs(count, releases(context, owners)) == if count == owners && owners >= 1 {
            1nat
        } else {
            0nat
        },
    decreases owners,
{
    if owners > 0 {
        lemma_releases_finalize_once(count, context, (owners - 1) as nat);
        assert(releases(context, owners).drop_last() == releases(context, (owners - 1) as nat));
    }
}

/// The finalizer runs of a history that continues another are counted
/// from the count that the first one left.
pub proof fn lemma_finalizer_runs_continue(
    count: int,
    first: Seq<OwnerStep>,
    second: Seq<OwnerStep>,
)
    ensures
        replay_owners(count, first + second) == replay_owners(
            replay_owners(count, first),
            second,
        ),
        finalizer_runs(count, first + second) == finalizer_runs(count, first) + finalizer_runs(
            replay_owners(count, first),
            second,
        ),
    decreases second.len(),
{
    if second.len() == 0 {
        assert(first + second == first);
    } else {
        lemma_finalizer_runs_continue(count, first, second.drop_last());
        assert((first + second).drop_last() == first + second.drop_last());
        assert((first + second).last() == second.last());
    }
}

/// Across a whole run, in which execution contexts clone and release in
/// pairs and the owners from before the run are released after it, the
/// count ends at zero and the finalizer runs exactly once.
pub proof fn lemma_whole_run_finalizes_once(
    count: int,
    history: Seq<OwnerStep>,
    contexts: nat,
    pairs: nat,
)
    requires
        count >= 1,
        paired_history(history, contexts, pairs),
    ensures
        replay_owners(count, history + releases(contexts, count as nat)) == 0,
        finalizer_runs(count, history + releases(contexts, count as nat)) == 1,
{
    lemma_paired_history_nets_zero(count, history, contexts, pairs);
    lemma_releases_finalize_once(count, contexts, count as nat);
    lemma_finalizer_runs_continue(count, history, releases(contexts, count as nat));
}

} // verus!

//! Shared ownership that may cross execution contexts.
//!
//! The counters of this heap live in state cells and change only by
//! fetch-and-modify steps: relaxed when an owner is added, releasing when
//! one ends, and with an acquiring read by the owner that ends last, so
//! that it sees every write of the earlier owners before the payload is
//! finalized. One step takes the count from one to zero, so one owner runs
//! the finalizer.
//!
//! What several execution contexts do to one cell happens in some order.
//! `run_turns` takes such an order and performs it on a heap, one turn
//! after another.
use vstd::prelude::*;
use crate::counter::AtomicCount;
use crate::heap::Alias;
use crate::heap::CountedHeap;
use crate::history::balanced_history;
use crate::history::held_by;
use crate::history::replay_owners;
use crate::history::OwnerStep;

verus! {

/// A heap whose cells count their owners in state cells.
pub type AtomicHeap<T> = CountedHeap<T, AtomicCount>;

/// One owning alias of a cell of an `AtomicHeap`.
pub type AtomicSharedPtr = Alias<AtomicCount>;

/// One turn of an execution context: it clones the alias that all contexts
/// share, or releases the clone that it holds.
#[derive(Clone, Copy, Debug, PartialEq, Eq, Structural)]
pub struct Turn {
    pub context: usize,
    pub clones: bool,
}

/// The steps on the counter that `turns` amount to.
pub open spec fn steps(turns: Seq<Turn>) -> Seq<OwnerStep> {
    Seq::new(
        turns.len(),
        |i: int| OwnerStep { context: turns[i].context as nat, clones: turns[i].clones },
    )
}

/// Turns that `contexts` execution contexts can take: a context clones
/// only while it holds no clone, releases only the clone that it holds,
/// and holds none at the end.
pub open spec fn allowed(turns: Seq<Turn>, contexts: nat) -> bool {
    balanced_history(steps(turns), contexts)
}

/// What one more step does to the aliases that a context holds and to the
/// count.
pub proof fn lemma_one_more_step(count: int, history: Seq<OwnerStep>, n: int, context: nat)
    requires
        0 <= n < history.len(),
    ensures
        held_by(history.take(n + 1), context) == held_by(history.take(n), context)
            + if history[n].context != context {
            0int
        } else if history[n].clones {
            1int
        } else {
            -1int
        },
        replay_owners(count, history.take(n + 1)) == replay_owners(count, history.take(n))
            + if history[n].clones {
            1int
        } else {
            -1int
        },
{
    assert(history.take(n + 1).drop_last() == history.take(n));
    assert(history.take(n + 1).last() == history[n]);
}

/// Whether `contexts` execution contexts can take `turns`.
pub fn check_turns(turns: &Vec<Turn>, contexts: usize) -> (ok: bool)
    ensures
        ok == allowed(turns@, contexts as nat),
{
    let mut holding: Vec<bool> = Vec::new();
    let mut c: usize = 0;
    while c < contexts
        invariant
            c <= contexts,
            holding@.len() == c,
            forall|k: int| 0 <= k < c ==> !holding@[k],
        decreases contexts - c,
    {
        holding.push(false);
        c = c + 1;
    }
    let ghost history = steps(turns@);
    let mut i: usize = 0;
    proof {
        assert(history.take(0).len() == 0);
    }
    while i < turns.len()
        invariant
            i <= turns@.len(),
            history == steps(turns@),
            holding@.len() == contexts,
            forall|k: int| 0 <= k < i ==> (#[trigger] turns@[k]).context < contexts,
            forall|n: int, context: nat|
                0 <= n <= i && context < contexts ==> 0 <= #[trigger] held_by(
                    history.take(n),
                    context,
                ) <= 1,
            forall|context: int|
                0 <= context < contexts ==> (#[trigger] holding@[context] <==> held_by(
                    history.take(i as int),
                    context as nat,
                ) == 1),
        decreases turns@.len() - i,
    {
        let turn = turns[i];
        if turn.context >= contexts {
            assert(history[i as int].context == turn.context);
            return false;
        }
        let held: bool = holding[turn.context];
        proof {
            lemma_one_more_step(0, history, i as int, turn.context as nat);
            assert(history[i as int].context == turn.context);
            assert(history[i as int].clones == turn.clones);
            assert(0 <= held_by(history.take(i as int), turn.context as nat) <= 1);
        }
        if held == turn.clones {
            proof {
                let n = i + 1;
                assert(!(0 <= held_by(history.take(n), turn.context as nat) <= 1));
            }
            return false;
        }
        holding.set(turn.context, turn.clones);
        proof {
            assert forall|n: int, context: nat|
                0 <= n <= i + 1 && context < contexts implies 0 <= #[trigger] held_by(
                history.take(n),
                context,
            ) <= 1 by {
                if n == i + 1 {
                    lemma_one_more_step(0, history, i as int, context);
                    assert(0 <= held_by(history.take(i as int), context) <= 1);
                }
            }
            assert forall|context: int| 0 <= context < contexts implies (
            #[trigger] holding@[context] <==> held_by(history.take(i + 1), context as nat)
                == 1) by {
                lemma_one_more_step(0, history, i as int, context as nat);
            }
        }
        i = i + 1;
    }
    proof {
        assert(history.take(i as int) == history);
        assert forall|k: int| 0 <= k < history.len() implies (#[trigger] history[k]).context
            < contexts by {
            assert(turns@[k].context < contexts);
        }
    }
    let mut c: usize = 0;
    while c < contexts
        invariant
            c <= contexts,
            holding@.len() == contexts,
            history == steps(turns@),
            allowed(turns@, contexts as nat) <==> forall|context: nat|
                context < contexts ==> held_by(history, context) == 0,
            forall|context: int|
                0 <= context < contexts ==> (#[trigger] holding@[context] <==> held_by(
                    history,
                    context as nat,
                ) == 1),
            forall|context: nat|
                context < contexts ==> 0 <= #[trigger] held_by(history, context) <= 1,
            forall|context: nat| context < c ==> held_by(history, context) == 0,
        decreases contexts - c,
    {
        if holding[c] {
            proof {
                assert(held_by(history, c as nat) == 1);
            }
            return false;
        }
        proof {
            assert(!holding@[c as int]);
            assert(0 <= held_by(history, c as nat) <= 1);
        }
        c = c + 1;
    }
    true
}

/// A set that holds two different elements has at least two.
proof fn lemma_two_owners(owners: Set<nat>, first: nat, second: nat)
    requires
        owners.finite(),
        owners.contains(first),
        owners.contains(second),
        first != second,
    ensures
        owners.len() >= 2,
{
    let rest = owners.remove(first);
    assert(rest.contains(second));
    if rest.len() == 0 {
        rest.lemma_len0_is_empty();
    }
}

/// Performs `turns` on `heap`: each turn clones `base` for its execution
/// context or releases the clone that the context holds. Whatever the
/// order of the turns, the cell that `base` points at ends with the count
/// and the aliases that it had, and no finalizer runs.
pub fn run_turns<T>(
    heap: &mut AtomicHeap<T>,
    base: &AtomicSharedPtr,
    contexts: usize,
    turns: &Vec<Turn>,
)
    requires
        old(heap).wf(),
        old(heap).owns(base),
        allowed(turns@, contexts as nat),
        old(heap).strong_at(base.spec_addr() as int) + turns@.len() <= usize::MAX,
    ensures
        final(heap).wf(),
        final(heap).spec_len() == old(heap).spec_len(),
        final(heap).strong_at(base.spec_addr() as int) == replay_owners(
            old(heap).strong_at(base.spec_addr() as int) as int,
            steps(turns@),
        ),
        final(heap).strong_at(base.spec_addr() as int) == old(heap).strong_at(
            base.spec_addr() as int,
        ),
        final(heap).payload_at(base.spec_addr() as int) == old(heap).payload_at(
            base.spec_addr() as int,
        ),
        final(heap).aliases_at(base.spec_addr() as int) == old(heap).aliases_at(
            base.spec_addr() as int,
        ),
        final(heap).same_elsewhere(old(heap), base.spec_addr() as int),
        final(heap).finalizations() == old(heap).finalizations(),
{
    let ghost addr = base.spec_addr() as int;
    let ghost start = heap.aliases_at(addr);
    let ghost first_count = heap.strong_at(addr) as int;
    let ghost history = steps(turns@);
    let mut held: Vec<Option<AtomicSharedPtr>> = Vec::new();
    let mut c: usize = 0;
    while c < contexts
        invariant
            c <= contexts,
            held@.len() == c,
            forall|k: int| 0 <= k < c ==> held@[k] is None,
        decreases contexts - c,
    {
        held.push(None);
        c = c + 1;
    }
    let mut i: usize = 0;
    proof {
        assert(history.take(0).len() == 0);
        old(heap).lemma_count_is_aliases(base.spec_addr());
    }
    while i < turns.len()
        invariant
            i <= turns@.len(),
            history == steps(turns@),
            allowed(turns@, contexts as nat),
            addr == base.spec_addr(),
            start == old(heap).aliases_at(addr),
            first_count == old(heap).strong_at(addr),
            first_count >= 1,
            first_count + turns@.len() <= usize::MAX,
            held@.len() == contexts,
            heap.wf(),
            heap.owns(base),
            heap.spec_len() == old(heap).spec_len(),
            start.contains(base.id()),
            start.subset_of(heap.aliases_at(addr)),
            heap.strong_at(addr) == replay_owners(first_count, history.take(i as int)),
            heap.strong_at(addr) <= first_count + i,
            heap.payload_at(addr) == old(heap).payload_at(addr),
            heap.same_elsewhere(old(heap), addr),
            heap.finalizations() == old(heap).finalizations(),
            forall|k: int|
                0 <= k < contexts ==> ((#[trigger] held@[k]) is Some <==> held_by(
                    history.take(i as int),
                    k as nat,
                ) == 1),
            forall|k: int|
                0 <= k < contexts ==> ((#[trigger] held@[k]) matches Some(alias) ==> {
                    &&& heap.owns(&alias)
                    &&& alias.spec_addr() == addr
                    &&& !start.contains(alias.id())
                }),
            forall|j: int, k: int|
                0 <= j < contexts && 0 <= k < contexts && j != k && (#[trigger] held@[j]) is Some
                    && (#[trigger] held@[k]) is Some ==> held@[j]->0.id() != held@[k]->0.id(),
        decreases turns@.len() - i,
    {
        let turn = turns[i];
        let ghost before = *heap;
        let ghost held_before = held@;
        proof {
            assert(history[i as int].context == turn.context);
            assert(history[i as int].clones == turn.clones);
            assert(turns@[i as int].context < contexts);
            lemma_one_more_step(first_count, history, i as int, turn.context as nat);
            assert(0 <= held_by(history.take(i + 1), turn.context as nat) <= 1);
            heap.lemma_count_is_aliases(base.spec_addr());
        }
        if turn.clones {
            assert(held@[turn.context as int] is None);
            let alias = heap.clone_ptr(base);
            held.set(turn.context, Some(alias));
        } else {
            assert(held@[turn.context as int] is Some);
            let alias = held[turn.context].take().unwrap();
            proof {
                assert(alias == held_before[turn.context as int]->0);
                lemma_two_owners(heap.aliases_at(addr), base.id(), alias.id());
            }
            let finalized = heap.release(alias);
            assert(!finalized);
        }
        proof {
            assert forall|k: int| 0 <= k < contexts implies ((#[trigger] held@[k]) is Some
                <==> held_by(history.take(i + 1), k as nat) == 1) by {
                lemma_one_more_step(first_count, history, i as int, k as nat);
                if k != turn.context {
                    assert(held@[k] == held_before[k]);
                }
            }
            assert forall|k: int| 0 <= k < contexts implies ((#[trigger] held@[k]) matches Some(
                alias,
            ) ==> {
                &&& heap.owns(&alias)
                &&& alias.spec_addr() == addr
                &&& !start.contains(alias.id())
            }) by {
                if k != turn.context && held@[k] is Some {
                    assert(held@[k] == held_before[k]);
                    let kept = held_before[k]->0;
                    assert(before.owns(&kept));
                    if !turn.clones {
                        let ended = seq![held_before[turn.context as int]->0];
                        assert(held_before[turn.context as int] is Some);
                        assert(!(exists|e: int|
                            0 <= e < ended.len() && (#[trigger] ended[e]).spec_addr()
                                == kept.spec_addr() && ended[e].id() == kept.id()));
                    }
                    assert(heap.owns(&kept));
                }
            }
            assert forall|j: int, k: int|
                0 <= j < contexts && 0 <= k < contexts && j != k && (#[trigger] held@[j]) is Some
                    && (#[trigger] held@[k]) is Some implies held@[j]->0.id() != held@[k]->0.id() by {
                if j != turn.context {
                    assert(held@[j] == held_before[j]);
                    assert(before.owns(&held_before[j]->0));
                }
                if k != turn.context {
                    assert(held@[k] == held_before[k]);
                    assert(before.owns(&held_before[k]->0));
                }
            }
            if !turn.clones {
                let ended = seq![held_before[turn.context as int]->0];
                assert(!(exists|e: int|
                    0 <= e < ended.len() && (#[trigger] ended[e]).spec_addr() == base.spec_addr()
                        && ended[e].id() == base.id()));
            }
        }
        i = i + 1;
    }
    proof {
        assert(history.take(i as int) == history);
        crate::history::lemma_balanced_history_nets_zero(first_count, history, contexts as nat);
        heap.lemma_count_is_aliases(base.spec_addr());
        vstd::set_lib::lemma_subset_equality(start, heap.aliases_at(addr));
    }
}

} // verus!

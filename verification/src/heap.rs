//! Reference-counted cells in a heap.
//!
//! A `CountedHeap` owns every cell. An `Alias` is one owning alias of one
//! cell. The heap counts the aliases of each cell, keeps the payload while
//! the count is at least one, and finalizes the payload at the step that
//! takes the count from one to zero.
use vstd::prelude::*;
use crate::counter::Counter;

verus! {

/// One allocation: a payload slot and the number of owning aliases.
pub struct HeapCell<T, C> {
    payload: Option<T>,
    strong: C,
}

impl<T, C: Counter> HeapCell<T, C> {
    /// The payload, while the cell has not been reclaimed.
    pub closed spec fn payload(&self) -> Option<T> {
        self.payload
    }

    /// The number of owning aliases.
    pub closed spec fn strong(&self) -> nat {
        self.strong.count() as nat
    }

    /// A cell keeps its payload exactly while somebody owns it.
    pub open spec fn wf(&self) -> bool {
        self.payload() is Some <==> self.strong() >= 1
    }
}

/// One owning alias of a heap cell.
///
/// An alias is made by `allocate` or `clone_ptr` and ends in `release`. It
/// cannot be copied. An alias that is dropped without being released
/// leaves its count behind: its cell then stays alive, as after a leak.
pub struct Alias<C> {
    addr: usize,
    id: Ghost<nat>,
    counted_by: core::marker::PhantomData<C>,
}

impl<C> Alias<C> {
    /// The address of the cell that the alias points at.
    pub closed spec fn spec_addr(&self) -> usize {
        self.addr
    }

    /// What tells this alias from the other aliases of its cell.
    pub closed spec fn id(&self) -> nat {
        self.id@
    }

    #[verifier::when_used_as_spec(spec_addr)]
    pub fn addr(&self) -> (addr: usize)
        ensures
            addr == self.spec_addr(),
    {
        self.addr
    }
}

/// Whether `ptrs` are aliases of the cell at `addr`, no two of them the
/// same alias.
pub open spec fn aliases_of<C>(ptrs: Seq<Alias<C>>, addr: usize) -> bool {
    &&& forall|i: int| 0 <= i < ptrs.len() ==> (#[trigger] ptrs[i]).spec_addr() == addr
    &&& forall|i: int, j: int|
        0 <= i < ptrs.len() && 0 <= j < ptrs.len() && i != j ==> (#[trigger] ptrs[i]).id() != (
        #[trigger] ptrs[j]).id()
}

/// Whether every one of `ptrs` is a live alias of a cell of `heap`.
pub open spec fn all_owned<T, C: Counter>(heap: &CountedHeap<T, C>, ptrs: Seq<Alias<C>>) -> bool {
    forall|i: int| 0 <= i < ptrs.len() ==> heap.owns(#[trigger] &ptrs[i])
}

/// The identities of the aliases in `ptrs`.
pub open spec fn identities<C>(ptrs: Seq<Alias<C>>) -> Set<nat> {
    Set::new(|id: nat| exists|i: int| 0 <= i < ptrs.len() && (#[trigger] ptrs[i]).id() == id)
}

/// Distinct aliases have as many identities as there are aliases.
pub proof fn lemma_identities_len<C>(ptrs: Seq<Alias<C>>, addr: usize)
    requires
        aliases_of(ptrs, addr),
    ensures
        identities(ptrs).finite(),
        identities(ptrs).len() == ptrs.len(),
    decreases ptrs.len(),
{
    if ptrs.len() == 0 {
        assert(identities(ptrs) =~= Set::<nat>::empty());
    } else {
        let front = ptrs.drop_last();
        let back = ptrs.last();
        lemma_identities_len(front, addr);
        assert(!identities(front).contains(back.id())) by {
            if identities(front).contains(back.id()) {
                let k = choose|k: int| 0 <= k < front.len() && front[k].id() == back.id();
                assert(ptrs[k].id() == ptrs[ptrs.len() - 1].id());
            }
        }
        assert(identities(ptrs) =~= identities(front).insert(back.id())) by {
            assert forall|id: nat| identities(ptrs).contains(id) implies identities(front).insert(
                back.id(),
            ).contains(id) by {
                let k = choose|k: int| 0 <= k < ptrs.len() && ptrs[k].id() == id;
                if k < front.len() {
                    assert(front[k].id() == id);
                }
            }
            assert forall|id: nat|
                identities(front).insert(back.id()).contains(id) implies identities(ptrs).contains(
                id,
            ) by {
                if id == back.id() {
                    assert(ptrs[ptrs.len() - 1].id() == id);
                } else {
                    let k = choose|k: int| 0 <= k < front.len() && front[k].id() == id;
                    assert(ptrs[k].id() == id);
                }
            }
        }
    }
}

/// How often `addr` stands in `log`.
pub open spec fn occurrences(log: Seq<usize>, addr: usize) -> nat
    decreases log.len(),
{
    if log.len() == 0 {
        0
    } else {
        occurrences(log.drop_last(), addr) + if log.last() == addr {
            1nat
        } else {
            0nat
        }
    }
}

/// In a log without repetitions an address stands once or not at all.
pub proof fn lemma_occurrences_unique(log: Seq<usize>, addr: usize)
    requires
        log.no_duplicates(),
    ensures
        occurrences(log, addr) == if log.contains(addr) {
            1nat
        } else {
            0nat
        },
    decreases log.len(),
{
    if log.len() > 0 {
        let front = log.drop_last();
        lemma_occurrences_unique(front, addr);
        if log.last() == addr {
            assert(log[log.len() - 1] == addr);
            if front.contains(addr) {
                let k = choose|k: int| 0 <= k < front.len() && front[k] == addr;
                assert(log[k] == log[log.len() - 1]);
            }
        } else if log.contains(addr) {
            let k = choose|k: int| 0 <= k < log.len() && log[k] == addr;
            assert(front[k] == addr);
        } else if front.contains(addr) {
            let k = choose|k: int| 0 <= k < front.len() && front[k] == addr;
            assert(log[k] == addr);
        }
    }
}

/// The cells, the live aliases of each and the record of finalizations.
pub struct CountedHeap<T, C> {
    cells: Vec<HeapCell<T, C>>,
    finalized: Vec<usize>,
    aliases: Ghost<Seq<Set<nat>>>,
    minted: Ghost<nat>,
}

impl<T, C: Counter> CountedHeap<T, C> {
    /// The number of cells ever allocated.
    pub closed spec fn spec_len(&self) -> nat {
        self.cells@.len()
    }

    /// The number of owning aliases of the cell at `addr`.
    pub closed spec fn strong_at(&self, addr: int) -> nat {
        self.cells@[addr].strong()
    }

    /// The payload of the cell at `addr`, `None` once reclaimed.
    pub closed spec fn payload_at(&self, addr: int) -> Option<T> {
        self.cells@[addr].payload()
    }

    /// The identities of the live aliases of the cell at `addr`.
    pub closed spec fn aliases_at(&self, addr: int) -> Set<nat> {
        self.aliases@[addr]
    }

    /// The addresses whose finalizer has run, oldest first.
    pub closed spec fn finalizations(&self) -> Seq<usize> {
        self.finalized@
    }

    /// How often the finalizer of the cell at `addr` has run.
    pub open spec fn finalized_times(&self, addr: usize) -> nat {
        occurrences(self.finalizations(), addr)
    }

    /// Whether `ptr` is a live alias of a cell of this heap.
    pub open spec fn owns(&self, ptr: &Alias<C>) -> bool {
        &&& ptr.spec_addr() < self.spec_len()
        &&& self.aliases_at(ptr.spec_addr() as int).contains(ptr.id())
    }

    /// The heap's invariant: each count is the number of live aliases, a
    /// payload is there exactly while its count is at least one, and a
    /// finalizer has run once for each reclaimed cell and never for a
    /// live one.
    pub closed spec fn wf(&self) -> bool {
        &&& self.aliases@.len() == self.cells@.len()
        &&& self.finalized@.len() <= self.cells@.len()
        &&& self.finalized@.no_duplicates()
        &&& forall|i: int|
            0 <= i < self.cells@.len() ==> {
                &&& (#[trigger] self.cells@[i]).wf()
                &&& self.aliases@[i].finite()
                &&& self.aliases@[i].len() == self.cells@[i].strong()
                &&& forall|id: nat| self.aliases@[i].contains(id) ==> id < self.minted@
                &&& self.cells@[i].strong() == 0 <==> self.finalized@.contains(i as usize)
            }
        &&& forall|k: int|
            0 <= k < self.finalized@.len() ==> (#[trigger] self.finalized@[k]) < self.cells@.len()
    }

    /// A heap without cells.
    pub fn new() -> (heap: Self)
        ensures
            heap.wf(),
            heap.spec_len() == 0,
            heap.finalizations() == Seq::<usize>::empty(),
    {
        CountedHeap {
            cells: Vec::new(),
            finalized: Vec::new(),
            aliases: Ghost(Seq::empty()),
            minted: Ghost(0),
        }
    }

    /// The number of cells ever allocated.
    pub fn len(&self) -> (n: usize)
        ensures
            n == self.spec_len(),
    {
        self.cells.len()
    }

    /// Whether every cell but the one at `addr` is as it was in `before`,
    /// with the same payload, count and aliases.
    pub open spec fn same_elsewhere(&self, before: &Self, addr: int) -> bool {
        forall|i: int|
            #![trigger self.strong_at(i)]
            #![trigger self.payload_at(i)]
            #![trigger self.aliases_at(i)]
            0 <= i < before.spec_len() && i != addr ==> {
                &&& self.strong_at(i) == before.strong_at(i)
                &&& self.payload_at(i) == before.payload_at(i)
                &&& self.aliases_at(i) == before.aliases_at(i)
            }
    }

    /// Whether every alias that was live in `before` is live here, but for
    /// those in `ended`.
    pub open spec fn keeps_owners(&self, before: &Self, ended: Seq<Alias<C>>) -> bool {
        forall|ptr: Alias<C>|
            #![trigger self.owns(&ptr)]
            #![trigger before.owns(&ptr)]
            before.owns(&ptr) && !(exists|i: int|
                0 <= i < ended.len() && (#[trigger] ended[i]).spec_addr() == ptr.spec_addr()
                    && ended[i].id() == ptr.id()) ==> self.owns(&ptr)
    }

    /// Moves `value` onto a fresh cell with a count of one and returns its
    /// first alias.
    pub fn allocate(&mut self, value: T) -> (ptr: Alias<C>)
        requires
            old(self).wf(),
        ensures
            final(self).wf(),
            final(self).spec_len() == old(self).spec_len() + 1,
            ptr.spec_addr() == old(self).spec_len(),
            final(self).owns(&ptr),
            final(self).strong_at(ptr.spec_addr() as int) == 1,
            final(self).payload_at(ptr.spec_addr() as int) == Some(value),
            final(self).aliases_at(ptr.spec_addr() as int) == set![ptr.id()],
            final(self).same_elsewhere(old(self), ptr.spec_addr() as int),
            final(self).keeps_owners(old(self), Seq::empty()),
            final(self).finalizations() == old(self).finalizations(),
    {
        let addr: usize = self.cells.len();
        let ghost id: nat = self.minted@;
        self.cells.push(HeapCell { payload: Some(value), strong: C::one() });
        proof {
            self.aliases@ = self.aliases@.push(set![id]);
            self.minted@ = id + 1;
            assert(set![id].len() == 1);
            assert(!old(self).finalized@.contains(addr)) by {
                if old(self).finalized@.contains(addr) {
                    let k = choose|k: int|
                        0 <= k < old(self).finalized@.len() && old(self).finalized@[k] == addr;
                    assert(old(self).finalized@[k] < old(self).cells@.len());
                }
            }
            assert forall|i: int| 0 <= i < self.cells@.len() implies {
                &&& (#[trigger] self.cells@[i]).wf()
                &&& self.aliases@[i].finite()
                &&& self.aliases@[i].len() == self.cells@[i].strong()
                &&& forall|x: nat| self.aliases@[i].contains(x) ==> x < self.minted@
                &&& self.cells@[i].strong() == 0 <==> self.finalized@.contains(i as usize)
            } by {
                if i < old(self).cells@.len() {
                    assert(self.cells@[i] == old(self).cells@[i]);
                    assert(old(self).cells@[i].wf());
                }
            }
        }
        Alias { addr, id: Ghost(id), counted_by: core::marker::PhantomData }
    }

    /// The number of owning aliases of the cell that `ptr` points at.
    pub fn strong_count(&self, ptr: &Alias<C>) -> (count: usize)
        requires
            self.wf(),
            self.owns(ptr),
        ensures
            count == self.strong_at(ptr.spec_addr() as int),
            count >= 1,
    {
        proof {
            assert(self.cells@[ptr.addr as int].wf());
            assert(self.aliases@[ptr.addr as int].len() > 0) by {
                if self.aliases@[ptr.addr as int].len() == 0 {
                    self.aliases@[ptr.addr as int].lemma_len0_is_empty();
                }
            }
        }
        self.cells[ptr.addr].strong.current()
    }

    /// The number of owning aliases of the cell at `addr`: zero once the
    /// cell has been reclaimed.
    pub fn strong_count_at(&self, addr: usize) -> (count: usize)
        requires
            addr < self.spec_len(),
        ensures
            count == self.strong_at(addr as int),
    {
        self.cells[addr].strong.current()
    }

    /// How many finalizers have run on this heap.
    pub fn finalizer_runs(&self) -> (runs: usize)
        ensures
            runs == self.finalizations().len(),
    {
        self.finalized.len()
    }

    /// Shared view of the payload that `ptr` co-owns.
    pub fn get(&self, ptr: &Alias<C>) -> (payload: &T)
        requires
            self.wf(),
            self.owns(ptr),
        ensures
            self.payload_at(ptr.spec_addr() as int) == Some(*payload),
    {
        proof {
            assert(self.cells@[ptr.addr as int].wf());
            if self.aliases@[ptr.addr as int].len() == 0 {
                self.aliases@[ptr.addr as int].lemma_len0_is_empty();
            }
        }
        self.cells[ptr.addr].payload.as_ref().unwrap()
    }

    /// Makes one more alias of the cell that `ptr` points at and raises its
    /// count by one. The payload is shared, not copied, so `T` need not be
    /// cloneable.
    pub fn clone_ptr(&mut self, ptr: &Alias<C>) -> (alias: Alias<C>)
        requires
            old(self).wf(),
            old(self).owns(ptr),
            old(self).strong_at(ptr.spec_addr() as int) < usize::MAX,
        ensures
            final(self).wf(),
            final(self).spec_len() == old(self).spec_len(),
            alias.spec_addr() == ptr.spec_addr(),
            !old(self).owns(&alias),
            final(self).owns(&alias),
            final(self).strong_at(ptr.spec_addr() as int) == old(self).strong_at(
                ptr.spec_addr() as int,
            ) + 1,
            final(self).payload_at(ptr.spec_addr() as int) == old(self).payload_at(
                ptr.spec_addr() as int,
            ),
            final(self).aliases_at(ptr.spec_addr() as int) == old(self).aliases_at(
                ptr.spec_addr() as int,
            ).insert(alias.id()),
            final(self).same_elsewhere(old(self), ptr.spec_addr() as int),
            final(self).keeps_owners(old(self), Seq::empty()),
            final(self).finalizations() == old(self).finalizations(),
    {
        let addr: usize = ptr.addr;
        let ghost id: nat = self.minted@;
        let ghost before = self.aliases@[addr as int];
        proof {
            assert(old(self).cells@[addr as int].wf());
            if before.len() == 0 {
                before.lemma_len0_is_empty();
            }
            assert(!before.contains(id));
        }
        let prior: usize = self.cells[addr].strong.increment();
        proof {
            self.aliases@ = self.aliases@.update(addr as int, before.insert(id));
            self.minted@ = id + 1;
            assert forall|i: int| 0 <= i < self.cells@.len() implies {
                &&& (#[trigger] self.cells@[i]).wf()
                &&& self.aliases@[i].finite()
                &&& self.aliases@[i].len() == self.cells@[i].strong()
                &&& forall|x: nat| self.aliases@[i].contains(x) ==> x < self.minted@
                &&& self.cells@[i].strong() == 0 <==> self.finalized@.contains(i as usize)
            } by {
                assert(old(self).cells@[i].wf());
                if i != addr {
                    assert(self.cells@[i] == old(self).cells@[i]);
                }
            }
        }
        Alias { addr, id: Ghost(id), counted_by: core::marker::PhantomData }
    }

    /// Ends the alias `ptr`: lowers the count of its cell by one and, at the
    /// step from one to zero, finalizes the payload and reclaims the cell.
    /// Returns whether this step ran the finalizer.
    pub fn release(&mut self, ptr: Alias<C>) -> (finalized: bool)
        requires
            old(self).wf(),
            old(self).owns(&ptr),
        ensures
            final(self).wf(),
            final(self).spec_len() == old(self).spec_len(),
            finalized == (old(self).strong_at(ptr.spec_addr() as int) == 1),
            !final(self).owns(&ptr),
            final(self).strong_at(ptr.spec_addr() as int) == old(self).strong_at(
                ptr.spec_addr() as int,
            ) - 1,
            final(self).payload_at(ptr.spec_addr() as int) == if finalized {
                None
            } else {
                old(self).payload_at(ptr.spec_addr() as int)
            },
            final(self).aliases_at(ptr.spec_addr() as int) == old(self).aliases_at(
                ptr.spec_addr() as int,
            ).remove(ptr.id()),
            final(self).same_elsewhere(old(self), ptr.spec_addr() as int),
            final(self).keeps_owners(old(self), seq![ptr]),
            final(self).finalizations() == if finalized {
                old(self).finalizations().push(ptr.spec_addr())
            } else {
                old(self).finalizations()
            },
    {
        let payload = self.release_into(ptr);
        payload.is_some()
    }

    /// Ends the alias `ptr` as `release` does and, where it was the last
    /// alias of its cell, hands the payload to the caller instead of
    /// dropping it: the payload has left the heap, and what its end runs is
    /// for the caller to see.
    pub fn release_into(&mut self, ptr: Alias<C>) -> (payload: Option<T>)
        requires
            old(self).wf(),
            old(self).owns(&ptr),
        ensures
            final(self).wf(),
            final(self).spec_len() == old(self).spec_len(),
            payload == if old(self).strong_at(ptr.spec_addr() as int) == 1 {
                old(self).payload_at(ptr.spec_addr() as int)
            } else {
                None
            },
            payload is Some <==> old(self).strong_at(ptr.spec_addr() as int) == 1,
            !final(self).owns(&ptr),
            final(self).strong_at(ptr.spec_addr() as int) == old(self).strong_at(
                ptr.spec_addr() as int,
            ) - 1,
            final(self).payload_at(ptr.spec_addr() as int) == if payload is Some {
                None
            } else {
                old(self).payload_at(ptr.spec_addr() as int)
            },
            final(self).aliases_at(ptr.spec_addr() as int) == old(self).aliases_at(
                ptr.spec_addr() as int,
            ).remove(ptr.id()),
            final(self).same_elsewhere(old(self), ptr.spec_addr() as int),
            final(self).keeps_owners(old(self), seq![ptr]),
            final(self).finalizations() == if payload is Some {
                old(self).finalizations().push(ptr.spec_addr())
            } else {
                old(self).finalizations()
            },
    {
        let addr: usize = ptr.addr;
        let ghost before = self.aliases@[addr as int];
        proof {
            assert(old(self).cells@[addr as int].wf());
            if before.len() == 0 {
                before.lemma_len0_is_empty();
            }
        }
        let prior: usize = self.cells[addr].strong.decrement();
        let last: bool = prior == 1;
        let mut payload: Option<T> = None;
        if last {
            payload = self.cells[addr].payload.take();
            proof {
                assert(!old(self).finalized@.contains(addr));
                old(self).lemma_finalized_below_live(addr);
            }
            self.finalized.push(addr);
        }
        proof {
            self.aliases@ = self.aliases@.update(addr as int, before.remove(ptr.id@));
            assert forall|i: int| 0 <= i < self.cells@.len() implies {
                &&& (#[trigger] self.cells@[i]).wf()
                &&& self.aliases@[i].finite()
                &&& self.aliases@[i].len() == self.cells@[i].strong()
                &&& forall|x: nat| self.aliases@[i].contains(x) ==> x < self.minted@
                &&& self.cells@[i].strong() == 0 <==> self.finalized@.contains(i as usize)
            } by {
                assert(self.cells@.len() == self.cells.len());
                let here = i as usize;
                assert(here == i);
                assert(old(self).cells@[i].wf());
                if i != addr {
                    assert(self.cells@[i] == old(self).cells@[i]);
                    assert(self.aliases@[i] == old(self).aliases@[i]);
                }
                if last {
                    let grown = old(self).finalized@.push(addr);
                    assert(self.finalized@ == grown);
                    assert(grown[grown.len() - 1] == addr);
                    if old(self).finalized@.contains(here) {
                        let k = choose|k: int|
                            0 <= k < old(self).finalized@.len() && old(self).finalized@[k] == here;
                        assert(grown[k] == here);
                    }
                    if grown.contains(here) && i != addr {
                        let k = choose|k: int| 0 <= k < grown.len() && grown[k] == here;
                        assert(k < old(self).finalized@.len());
                        assert(old(self).finalized@[k] == here);
                    }
                } else {
                    assert(self.finalized@ == old(self).finalized@);
                }
            }
            if last {
                let grown = old(self).finalized@.push(addr);
                assert(self.finalized@ == grown);
                assert forall|k: int| 0 <= k < grown.len() implies (#[trigger] grown[k])
                    < self.cells@.len() by {
                    if k < old(self).finalized@.len() {
                        assert(grown[k] == old(self).finalized@[k]);
                    }
                }
                assert(grown.no_duplicates()) by {
                    assert forall|a: int, b: int|
                        0 <= a < grown.len() && 0 <= b < grown.len() && a != b implies grown[a]
                        != grown[b] by {
                        if a < old(self).finalized@.len() {
                            assert(old(self).finalized@.contains(grown[a]));
                        }
                        if b < old(self).finalized@.len() {
                            assert(old(self).finalized@.contains(grown[b]));
                        }
                    }
                }
            }
        }
        proof {
            let ended = seq![ptr];
            assert forall|q: Alias<C>|
                #![trigger self.owns(&q)]
                #![trigger old(self).owns(&q)]
                old(self).owns(&q) && !(exists|i: int|
                    0 <= i < ended.len() && (#[trigger] ended[i]).spec_addr() == q.spec_addr()
                        && ended[i].id() == q.id()) implies self.owns(&q) by {
                if q.spec_addr() == addr && q.id() == ptr.id() {
                    assert(ended[0].spec_addr() == q.spec_addr());
                }
            }
        }
        payload
    }

    /// Makes `n` more aliases of the cell that `ptr` points at.
    pub fn clone_many(&mut self, ptr: &Alias<C>, n: usize) -> (made: Vec<Alias<C>>)
        requires
            old(self).wf(),
            old(self).owns(ptr),
            old(self).strong_at(ptr.spec_addr() as int) + n <= usize::MAX,
        ensures
            final(self).wf(),
            final(self).spec_len() == old(self).spec_len(),
            made@.len() == n,
            aliases_of(made@, ptr.spec_addr()),
            final(self).strong_at(ptr.spec_addr() as int) == old(self).strong_at(
                ptr.spec_addr() as int,
            ) + n,
            final(self).payload_at(ptr.spec_addr() as int) == old(self).payload_at(
                ptr.spec_addr() as int,
            ),
            final(self).aliases_at(ptr.spec_addr() as int) == old(self).aliases_at(
                ptr.spec_addr() as int,
            ).union(identities(made@)),
            old(self).aliases_at(ptr.spec_addr() as int).disjoint(identities(made@)),
            final(self).same_elsewhere(old(self), ptr.spec_addr() as int),
            final(self).keeps_owners(old(self), Seq::empty()),
            all_owned(final(self), made@),
            final(self).finalizations() == old(self).finalizations(),
    {
        let mut made: Vec<Alias<C>> = Vec::new();
        let ghost addr = ptr.spec_addr() as int;
        let ghost start = self.aliases_at(addr);
        let mut done: usize = 0;
        proof {
            assert(start.union(identities(made@)) =~= start);
        }
        while done < n
            invariant
                done <= n,
                self.wf(),
                self.owns(ptr),
                addr == ptr.spec_addr(),
                start == old(self).aliases_at(addr),
                self.spec_len() == old(self).spec_len(),
                made@.len() == done,
                aliases_of(made@, ptr.spec_addr()),
                old(self).strong_at(addr) + n <= usize::MAX,
                self.strong_at(addr) == old(self).strong_at(addr) + done,
                self.payload_at(addr) == old(self).payload_at(addr),
                self.aliases_at(addr) == start.union(identities(made@)),
                start.disjoint(identities(made@)),
                self.same_elsewhere(old(self), addr),
                self.finalizations() == old(self).finalizations(),
            decreases n - done,
        {
            let ghost before = made@;
            let ghost held = self.aliases_at(addr);
            let alias = self.clone_ptr(ptr);
            made.push(alias);
            done = done + 1;
            proof {
                let fresh = made@[made@.len() - 1];
                assert(!held.contains(fresh.id()));
                assert(identities(made@) =~= identities(before).insert(fresh.id())) by {
                    assert forall|id: nat|
                        identities(before).insert(fresh.id()).contains(id) implies identities(
                        made@,
                    ).contains(id) by {
                        if id == fresh.id() {
                            assert(made@[made@.len() - 1].id() == id);
                        } else {
                            let k = choose|k: int| 0 <= k < before.len() && before[k].id() == id;
                            assert(made@[k].id() == id);
                        }
                    }
                    assert forall|id: nat| identities(made@).contains(id) implies identities(
                        before,
                    ).insert(fresh.id()).contains(id) by {
                        let k = choose|k: int| 0 <= k < made@.len() && made@[k].id() == id;
                        if k < before.len() {
                            assert(before[k].id() == id);
                        }
                    }
                }
                assert(self.aliases_at(addr) =~= start.union(identities(made@)));
                assert forall|a: int, b: int|
                    0 <= a < made@.len() && 0 <= b < made@.len() && a != b implies made@[a].id()
                    != made@[b].id() by {
                    if a < before.len() {
                        assert(identities(before).contains(before[a].id()));
                    }
                    if b < before.len() {
                        assert(identities(before).contains(before[b].id()));
                    }
                }
            }
        }
        made
    }

    /// Ends every alias in `ended`, all of them aliases of the cell at
    /// `addr`. Returns whether the finalizer ran.
    pub fn release_all(&mut self, addr: usize, ended: Vec<Alias<C>>) -> (finalized: bool)
        requires
            old(self).wf(),
            addr < old(self).spec_len(),
            aliases_of(ended@, addr),
            identities(ended@).subset_of(old(self).aliases_at(addr as int)),
        ensures
            final(self).wf(),
            final(self).spec_len() == old(self).spec_len(),
            old(self).strong_at(addr as int) >= ended@.len(),
            final(self).strong_at(addr as int) == old(self).strong_at(addr as int) - ended@.len(),
            finalized == (ended@.len() > 0 && old(self).strong_at(addr as int) == ended@.len()),
            final(self).payload_at(addr as int) == if finalized {
                None
            } else {
                old(self).payload_at(addr as int)
            },
            final(self).aliases_at(addr as int) == old(self).aliases_at(addr as int).difference(
                identities(ended@),
            ),
            final(self).same_elsewhere(old(self), addr as int),
            final(self).keeps_owners(old(self), ended@),
            final(self).finalizations() == if finalized {
                old(self).finalizations().push(addr)
            } else {
                old(self).finalizations()
            },
    {
        let mut rest = ended;
        let mut finalized = false;
        let ghost start = self.aliases_at(addr as int);
        proof {
            old(self).lemma_count_is_aliases(addr);
            lemma_identities_len(ended@, addr);
            vstd::set_lib::lemma_len_subset(identities(ended@), start);
            assert(start.difference(identities(ended@)).union(identities(rest@)) =~= start);
        }
        while rest.len() > 0
            invariant
                self.wf(),
                addr < self.spec_len(),
                self.spec_len() == old(self).spec_len(),
                start == old(self).aliases_at(addr as int),
                aliases_of(rest@, addr),
                rest@.len() <= ended@.len(),
                identities(rest@).subset_of(identities(ended@)),
                identities(rest@).subset_of(self.aliases_at(addr as int)),
                self.aliases_at(addr as int) == start.difference(identities(ended@)).union(
                    identities(rest@),
                ),
                old(self).strong_at(addr as int) >= ended@.len(),
                self.strong_at(addr as int) == old(self).strong_at(addr as int) - (ended@.len()
                    - rest@.len()),
                finalized == (rest@.len() < ended@.len() && self.strong_at(addr as int) == 0),
                self.payload_at(addr as int) == if finalized {
                    None
                } else {
                    old(self).payload_at(addr as int)
                },
                self.same_elsewhere(old(self), addr as int),
                self.finalizations() == if finalized {
                    old(self).finalizations().push(addr)
                } else {
                    old(self).finalizations()
                },
            decreases rest@.len(),
        {
            let ghost before = rest@;
            let ghost held = self.aliases_at(addr as int);
            let ptr = rest.pop().unwrap();
            proof {
                assert(ptr == before[before.len() - 1]);
                assert(identities(before).contains(ptr.id()));
                assert(!identities(rest@).contains(ptr.id())) by {
                    if identities(rest@).contains(ptr.id()) {
                        let k = choose|k: int| 0 <= k < rest@.len() && rest@[k].id() == ptr.id();
                        assert(before[k].id() == before[before.len() - 1].id());
                    }
                }
                assert(identities(rest@) =~= identities(before).remove(ptr.id())) by {
                    assert forall|id: nat| identities(rest@).contains(id) implies identities(
                        before,
                    ).remove(ptr.id()).contains(id) by {
                        let k = choose|k: int| 0 <= k < rest@.len() && rest@[k].id() == id;
                        assert(before[k].id() == id);
                    }
                    assert forall|id: nat|
                        identities(before).remove(ptr.id()).contains(id) implies identities(
                        rest@,
                    ).contains(id) by {
                        let k = choose|k: int| 0 <= k < before.len() && before[k].id() == id;
                        assert(rest@[k].id() == id);
                    }
                }
                self.lemma_count_is_aliases(addr);
            }
            let last = self.release(ptr);
            finalized = last;
            proof {
                assert(self.aliases_at(addr as int) =~= start.difference(identities(ended@)).union(
                    identities(rest@),
                ));
                if last && rest@.len() > 0 {
                    self.lemma_count_is_aliases(addr);
                    assert(identities(rest@).contains(rest@[0].id()));
                    assert(self.aliases_at(addr as int).contains(rest@[0].id()));
                    self.aliases_at(addr as int).lemma_len0_is_empty();
                }
            }
        }
        proof {
            assert(identities(rest@) =~= Set::<nat>::empty());
            assert(self.aliases_at(addr as int) =~= start.difference(identities(ended@)));
        }
        finalized
    }

    /// The finalizer of a cell has run exactly once if the cell has been
    /// reclaimed, and never while it has an owner.
    pub proof fn lemma_finalized_exactly_once(&self, addr: usize)
        requires
            self.wf(),
            addr < self.spec_len(),
        ensures
            self.finalized_times(addr) == if self.strong_at(addr as int) == 0 {
                1nat
            } else {
                0nat
            },
    {
        self.lemma_count_is_aliases(addr);
        lemma_occurrences_unique(self.finalizations(), addr);
    }

    /// The count of a cell is the number of its live aliases.
    pub proof fn lemma_count_is_aliases(&self, addr: usize)
        requires
            self.wf(),
            addr < self.spec_len(),
        ensures
            self.aliases_at(addr as int).finite(),
            self.aliases_at(addr as int).len() == self.strong_at(addr as int),
            self.payload_at(addr as int) is Some <==> self.strong_at(addr as int) >= 1,
            self.strong_at(addr as int) == 0 <==> self.finalizations().contains(addr),
            self.finalizations().no_duplicates(),
    {
        assert(self.cells@[addr as int].wf());
    }

    /// While one cell is still live, fewer finalizers have run than there
    /// are cells.
    proof fn lemma_finalized_below_live(&self, addr: usize)
        requires
            self.wf(),
            addr < self.spec_len(),
            !self.finalizations().contains(addr),
        ensures
            self.finalizations().len() < self.spec_len(),
    {
        let log = self.finalized@;
        let n = self.cells@.len();
        let seen = log.to_set();
        log.unique_seq_to_set();
        let all = Set::new(|a: usize| a < n);
        let bound = Set::new(|a: int| 0 <= a < n);
        vstd::set_lib::lemma_int_range(0, n as int);
        assert(vstd::set_lib::set_int_range(0, n as int) == bound);
        let lifted = seen.map(|a: usize| a as int);
        assert(seen.finite());
        seen.lemma_map_finite(|a: usize| a as int);
        assert(lifted.subset_of(bound.remove(addr as int))) by {
            assert forall|x: int| lifted.contains(x) implies bound.remove(addr as int).contains(
                x,
            ) by {
                let a = choose|a: usize| seen.contains(a) && a as int == x;
                let k = choose|k: int| 0 <= k < log.len() && log[k] == a;
                assert(log[k] < n);
            }
        }
        vstd::set_lib::lemma_len_subset(lifted, bound.remove(addr as int));
        vstd::set_lib::lemma_map_size(seen, lifted, |a: usize| a as int);
    }
}

} // verus!

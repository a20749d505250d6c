//! The destruction protocol: which finalizers run when an owner ends, and
//! in which order.
//!
//! An `Owner` describes one owned value: whether its type registers a
//! finalizer, whether it has copy semantics, and its nested owning fields
//! in declaration order. When an owner ends, its own finalizer runs first,
//! if it has one, and then its fields end, last-declared first. A `Scope`
//! holds local owners and ends them in the reverse of their declaration.
use vstd::prelude::*;
use crate::counter::Counter;
use crate::heap::Alias;
use crate::heap::CountedHeap;

verus! {

/// Why a type may not be given what was asked for it.
#[derive(Clone, Copy, Debug, PartialEq, Eq, Structural)]
pub enum ProtocolError {
    /// A type with copy semantics cannot register a finalizer.
    FinalizerOnCopy,
    /// A type with a finalizer, or with a field that is not copyable,
    /// cannot have copy semantics.
    CopyOfOwner,
}

/// One owned value, as the destruction protocol sees it.
pub struct Owner {
    label: u64,
    finalizer: bool,
    copyable: bool,
    fields: Vec<Owner>,
}

/// The finalizers that run when the first `upto` of the owners `fields`
/// end, last-declared first.
pub open spec fn ending_trace(fields: Seq<Owner>, upto: nat) -> Seq<u64>
    decreases fields, upto,
{
    if upto == 0 || upto > fields.len() {
        Seq::empty()
    } else {
        fields[upto - 1].trace() + ending_trace(fields, (upto - 1) as nat)
    }
}

/// How many finalizers are registered within the first `upto` of `fields`.
pub open spec fn fields_finalizers(fields: Seq<Owner>, upto: nat) -> nat
    decreases fields, upto,
{
    if upto == 0 || upto > fields.len() {
        0
    } else {
        fields[upto - 1].finalizers() + fields_finalizers(fields, (upto - 1) as nat)
    }
}

/// Whether the first `upto` of `fields` are all well formed.
pub open spec fn fields_wf(fields: Seq<Owner>, upto: nat) -> bool
    decreases fields, upto,
{
    if upto == 0 || upto > fields.len() {
        true
    } else {
        fields[upto - 1].wf() && fields_wf(fields, (upto - 1) as nat)
    }
}

/// Whether the first `upto` of `fields` all have copy semantics.
pub open spec fn fields_copyable(fields: Seq<Owner>, upto: nat) -> bool
    decreases upto,
{
    if upto == 0 || upto > fields.len() {
        true
    } else {
        fields[upto - 1].copyable() && fields_copyable(fields, (upto - 1) as nat)
    }
}

/// Declaring one more field leaves what was said of the earlier ones.
pub proof fn lemma_fields_extend(fields: Seq<Owner>, field: Owner, upto: nat)
    requires
        upto <= fields.len(),
    ensures
        ending_trace(fields.push(field), upto) == ending_trace(fields, upto),
        fields_finalizers(fields.push(field), upto) == fields_finalizers(fields, upto),
        fields_wf(fields.push(field), upto) == fields_wf(fields, upto),
        fields_copyable(fields.push(field), upto) == fields_copyable(fields, upto),
    decreases upto,
{
    if upto > 0 {
        lemma_fields_extend(fields, field, (upto - 1) as nat);
        assert(fields.push(field)[upto - 1] == fields[upto - 1]);
    }
}

/// If a field is not copyable, no longer run of fields is.
pub proof fn lemma_fields_copyable_monotone(fields: Seq<Owner>, shorter: nat, longer: nat)
    requires
        shorter <= longer <= fields.len(),
        !fields_copyable(fields, shorter),
    ensures
        !fields_copyable(fields, longer),
    decreases longer,
{
    if shorter < longer {
        lemma_fields_copyable_monotone(fields, shorter, (longer - 1) as nat);
    }
}

impl Owner {
    /// What names the finalizer of this owner in a trace.
    pub closed spec fn label(&self) -> u64 {
        self.label
    }

    /// Whether the type of this owner registers a finalizer.
    pub closed spec fn has_finalizer(&self) -> bool {
        self.finalizer
    }

    /// Whether this owner has copy semantics.
    pub closed spec fn copyable(&self) -> bool {
        self.copyable
    }

    /// The nested owning fields, in declaration order.
    pub closed spec fn fields(&self) -> Seq<Owner> {
        self.fields@
    }

    /// Copy semantics exclude a finalizer, here and in every field.
    pub open spec fn wf(&self) -> bool
        decreases self, 0nat,
    {
        &&& self.copyable() ==> !self.has_finalizer() && fields_copyable(
            self.fields(),
            self.fields().len(),
        )
        &&& fields_wf(self.fields(), self.fields().len())
    }

    /// The labels of the finalizers that run when this owner ends, in the
    /// order in which they run.
    pub open spec fn trace(&self) -> Seq<u64>
        decreases self, 0nat,
    {
        let own = if self.has_finalizer() {
            seq![self.label()]
        } else {
            Seq::empty()
        };
        own + ending_trace(self.fields(), self.fields().len())
    }

    /// An owner without fields whose type registers a finalizer named
    /// `label`.
    pub fn with_finalizer(label: u64) -> (owner: Owner)
        ensures
            owner.wf(),
            owner.label() == label,
            owner.has_finalizer(),
            !owner.copyable(),
            owner.fields() == Seq::<Owner>::empty(),
    {
        Owner { label, finalizer: true, copyable: false, fields: Vec::new() }
    }

    /// An owner without fields and without a finalizer.
    pub fn plain(label: u64) -> (owner: Owner)
        ensures
            owner.wf(),
            owner.label() == label,
            !owner.has_finalizer(),
            !owner.copyable(),
            owner.fields() == Seq::<Owner>::empty(),
    {
        Owner { label, finalizer: false, copyable: false, fields: Vec::new() }
    }

    /// Declares one more nested owning field, after those declared so far.
    /// A composite with copy semantics takes copyable fields only.
    pub fn declare_field(self, field: Owner) -> (composite: Result<Owner, ProtocolError>)
        requires
            self.wf(),
            field.wf(),
        ensures
            composite is Ok <==> (self.copyable() ==> field.copyable()),
            composite matches Err(e) ==> e == ProtocolError::CopyOfOwner,
            composite matches Ok(owner) ==> {
                &&& owner.wf()
                &&& owner.label() == self.label()
                &&& owner.has_finalizer() == self.has_finalizer()
                &&& owner.copyable() == self.copyable()
                &&& owner.fields() == self.fields().push(field)
            },
    {
        if self.copyable && !field.copyable {
            return Err(ProtocolError::CopyOfOwner);
        }
        let mut owner = self;
        let ghost before = owner.fields@;
        owner.fields.push(field);
        proof {
            lemma_fields_extend(before, field, before.len());
        }
        Ok(owner)
    }

    /// Registers a finalizer for the type of this owner. A type with copy
    /// semantics is refused: its values are duplicated bit by bit, and a
    /// finalizer would run once for each duplicate.
    pub fn register_finalizer(self) -> (registered: Result<Owner, ProtocolError>)
        requires
            self.wf(),
        ensures
            registered is Ok <==> !self.copyable(),
            registered matches Err(e) ==> e == ProtocolError::FinalizerOnCopy,
            registered matches Ok(owner) ==> {
                &&& owner.wf()
                &&& owner.label() == self.label()
                &&& owner.has_finalizer()
                &&& !owner.copyable()
                &&& owner.fields() == self.fields()
            },
    {
        if self.copyable {
            return Err(ProtocolError::FinalizerOnCopy);
        }
        let mut owner = self;
        owner.finalizer = true;
        Ok(owner)
    }

    /// Gives the type of this owner copy semantics. A type with a
    /// finalizer, or with a field that is not copyable, is refused.
    pub fn mark_copy(self) -> (marked: Result<Owner, ProtocolError>)
        requires
            self.wf(),
        ensures
            marked is Ok <==> !self.has_finalizer() && fields_copyable(
                self.fields(),
                self.fields().len(),
            ),
            marked matches Err(e) ==> e == ProtocolError::CopyOfOwner,
            marked matches Ok(owner) ==> {
                &&& owner.wf()
                &&& owner.label() == self.label()
                &&& !owner.has_finalizer()
                &&& owner.copyable()
                &&& owner.fields() == self.fields()
            },
    {
        if self.finalizer {
            return Err(ProtocolError::CopyOfOwner);
        }
        let mut i: usize = 0;
        while i < self.fields.len()
            invariant
                i <= self.fields@.len(),
                fields_copyable(self.fields@, i as nat),
            decreases self.fields@.len() - i,
        {
            if !self.fields[i].copyable {
                proof {
                    lemma_fields_copyable_monotone(
                        self.fields@,
                        (i + 1) as nat,
                        self.fields@.len(),
                    );
                }
                return Err(ProtocolError::CopyOfOwner);
            }
            i = i + 1;
        }
        let mut owner = self;
        owner.copyable = true;
        Ok(owner)
    }

    /// Ends this owner: runs its finalizer, if its type registers one, then
    /// ends its fields, last-declared first. Returns the labels of the
    /// finalizers in the order in which they ran.
    pub fn finalize(self) -> (ran: Vec<u64>)
        ensures
            ran@ == self.trace(),
        decreases self,
    {
        let mut ran: Vec<u64> = Vec::new();
        if self.finalizer {
            ran.push(self.label);
        }
        let ghost own = ran@;
        let ghost declared = self.fields@;
        let mut rest = self.fields;
        while rest.len() > 0
            invariant
                rest@.len() <= declared.len(),
                rest@ == declared.subrange(0, rest@.len() as int),
                declared == self.fields(),
                own + ending_trace(declared, declared.len()) == ran@ + ending_trace(
                    declared,
                    rest@.len(),
                ),
            decreases rest@.len(),
        {
            let ghost n = rest@.len();
            let field = rest.pop().unwrap();
            proof {
                assert(field == declared[n - 1]);
                assert(decreases_to!(self => self.fields));
                assert(decreases_to!(self.fields => self.fields@));
                assert(decreases_to!(declared => declared[n - 1]));
                assert(rest@ == declared.subrange(0, rest@.len() as int));
            }
            let ghost so_far = ran@;
            let mut inner = field.finalize();
            ran.append(&mut inner);
            proof {
                assert(ran@ == so_far + field.trace());
                assert(ending_trace(declared, n) == field.trace() + ending_trace(
                    declared,
                    (n - 1) as nat,
                ));
                assert(so_far + (field.trace() + ending_trace(declared, (n - 1) as nat)) == (so_far
                    + field.trace()) + ending_trace(declared, (n - 1) as nat));
            }
        }
        proof {
            assert(ran@ + ending_trace(declared, 0) == ran@);
        }
        ran
    }

    /// How many finalizers are registered in this owner and its fields.
    pub open spec fn finalizers(&self) -> nat
        decreases self, 0nat,
    {
        let own: nat = if self.has_finalizer() {
            1
        } else {
            0
        };
        own + fields_finalizers(self.fields(), self.fields().len())
    }
}

/// The local owners of one block, and the finalizers that have run in it.
pub struct Scope {
    locals: Vec<Owner>,
    ran: Vec<u64>,
}

impl Scope {
    /// The live local owners, in declaration order.
    pub closed spec fn locals(&self) -> Seq<Owner> {
        self.locals@
    }

    /// The labels of the finalizers that have run so far, oldest first.
    pub closed spec fn ran(&self) -> Seq<u64> {
        self.ran@
    }

    /// The labels of the finalizers that have run so far, oldest first.
    pub fn ran_so_far(&self) -> (ran: Vec<u64>)
        ensures
            ran@ == self.ran(),
    {
        self.ran.clone()
    }

    /// A block without locals in which nothing has run.
    pub fn new() -> (scope: Scope)
        ensures
            scope.locals() == Seq::<Owner>::empty(),
            scope.ran() == Seq::<u64>::empty(),
    {
        Scope { locals: Vec::new(), ran: Vec::new() }
    }

    /// Declares a local that owns `owner` and returns its slot.
    pub fn declare(&mut self, owner: Owner) -> (slot: usize)
        ensures
            slot == old(self).locals().len(),
            final(self).locals() == old(self).locals().push(owner),
            final(self).ran() == old(self).ran(),
    {
        let slot: usize = self.locals.len();
        self.locals.push(owner);
        slot
    }

    /// Releases the local in `slot` now: the value is moved into a scope
    /// that ends at once, so its finalizers run here and the local is gone.
    /// A value with copy semantics is copied instead, and the local stays.
    pub fn release_now(&mut self, slot: usize)
        requires
            slot < old(self).locals().len(),
        ensures
            final(self).locals() == if old(self).locals()[slot as int].copyable() {
                old(self).locals()
            } else {
                old(self).locals().remove(slot as int)
            },
            final(self).ran() == if old(self).locals()[slot as int].copyable() {
                old(self).ran()
            } else {
                old(self).ran() + old(self).locals()[slot as int].trace()
            },
    {
        if self.locals[slot].copyable {
            return;
        }
        let moved = self.locals.remove(slot);
        let mut inner = moved.finalize();
        self.ran.append(&mut inner);
    }

    /// Ends the block: the remaining locals end in the reverse of their
    /// declaration. Returns the labels of every finalizer that ran in the
    /// block, in the order in which they ran.
    pub fn end(self) -> (ran: Vec<u64>)
        ensures
            ran@ == self.ran() + ending_trace(self.locals(), self.locals().len()),
    {
        let ghost declared = self.locals@;
        let mut ran = self.ran;
        let mut rest = self.locals;
        while rest.len() > 0
            invariant
                rest@.len() <= declared.len(),
                rest@ == declared.subrange(0, rest@.len() as int),
                self.ran() + ending_trace(declared, declared.len()) == ran@ + ending_trace(
                    declared,
                    rest@.len(),
                ),
            decreases rest@.len(),
        {
            let ghost n = rest@.len();
            let ghost so_far = ran@;
            let local = rest.pop().unwrap();
            let mut inner = local.finalize();
            ran.append(&mut inner);
            proof {
                assert(local == declared[n - 1]);
                assert(rest@ == declared.subrange(0, rest@.len() as int));
                assert(so_far + (local.trace() + ending_trace(declared, (n - 1) as nat)) == (so_far
                    + local.trace()) + ending_trace(declared, (n - 1) as nat));
            }
        }
        proof {
            assert(ran@ + ending_trace(declared, 0) == ran@);
        }
        ran
    }
}

/// Ends one alias of a shared owner. The finalizers of the payload run at
/// this step if it ends the last alias, and not at all if it does not.
/// Returns the labels of the finalizers in the order in which they ran.
pub fn end_alias<C: Counter>(heap: &mut CountedHeap<Owner, C>, ptr: Alias<C>) -> (ran: Vec<u64>)
    requires
        old(heap).wf(),
        old(heap).owns(&ptr),
    ensures
        ran@ == if old(heap).strong_at(ptr.spec_addr() as int) == 1 {
            old(heap).payload_at(ptr.spec_addr() as int)->0.trace()
        } else {
            Seq::<u64>::empty()
        },
        final(heap).wf(),
        final(heap).spec_len() == old(heap).spec_len(),
        !final(heap).owns(&ptr),
        final(heap).strong_at(ptr.spec_addr() as int) == old(heap).strong_at(
            ptr.spec_addr() as int,
        ) - 1,
        final(heap).payload_at(ptr.spec_addr() as int) == if old(heap).strong_at(
            ptr.spec_addr() as int,
        ) == 1 {
            None
        } else {
            old(heap).payload_at(ptr.spec_addr() as int)
        },
        final(heap).aliases_at(ptr.spec_addr() as int) == old(heap).aliases_at(
            ptr.spec_addr() as int,
        ).remove(ptr.id()),
        final(heap).same_elsewhere(old(heap), ptr.spec_addr() as int),
        final(heap).keeps_owners(old(heap), seq![ptr]),
        final(heap).finalizations() == if old(heap).strong_at(ptr.spec_addr() as int) == 1 {
            old(heap).finalizations().push(ptr.spec_addr())
        } else {
            old(heap).finalizations()
        },
{
    match heap.release_into(ptr) {
        Some(payload) => payload.finalize(),
        None => Vec::new(),
    }
}

/// Each registered finalizer runs once when its owner ends: the trace is
/// as long as the number of finalizers registered in the owner and its
/// fields.
pub proof fn lemma_each_finalizer_runs_once(owner: Owner)
    ensures
        owner.trace().len() == owner.finalizers(),
    decreases owner, 0nat,
{
    lemma_ending_runs_each_once(owner.fields(), owner.fields().len());
}

/// Each finalizer registered in the first `upto` of `owners` runs once when
/// they end.
pub proof fn lemma_ending_runs_each_once(owners: Seq<Owner>, upto: nat)
    ensures
        ending_trace(owners, upto).len() == fields_finalizers(owners, upto),
    decreases owners, upto,
{
    if upto == 0 || upto > owners.len() {
    } else {
        lemma_each_finalizer_runs_once(owners[upto - 1]);
        lemma_ending_runs_each_once(owners, (upto - 1) as nat);
    }
}

/// A value with copy semantics ends without running any finalizer.
pub proof fn lemma_copy_ends_silently(owner: Owner)
    requires
        owner.wf(),
        owner.copyable(),
    ensures
        owner.trace() == Seq::<u64>::empty(),
    decreases owner, 0nat,
{
    lemma_copies_end_silently(owner.fields(), owner.fields().len());
    assert(owner.trace() =~= Seq::<u64>::empty());
}

/// Values with copy semantics end without running any finalizer.
pub proof fn lemma_copies_end_silently(owners: Seq<Owner>, upto: nat)
    requires
        fields_wf(owners, upto),
        fields_copyable(owners, upto),
    ensures
        ending_trace(owners, upto) == Seq::<u64>::empty(),
    decreases owners, upto,
{
    if upto == 0 || upto > owners.len() {
    } else {
        lemma_copy_ends_silently(owners[upto - 1]);
        lemma_copies_end_silently(owners, (upto - 1) as nat);
        assert(ending_trace(owners, upto) =~= Seq::<u64>::empty());
    }
}

} // verus!

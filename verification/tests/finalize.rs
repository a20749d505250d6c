use ownrt::atomic_shared::AtomicHeap;
use ownrt::finalize::end_alias;
use ownrt::finalize::Owner;
use ownrt::finalize::ProtocolError;
use ownrt::finalize::Scope;
use ownrt::shared::Heap;

fn composite() -> Owner {
    let whole = Owner::with_finalizer(3);
    let whole = whole.declare_field(Owner::with_finalizer(1)).ok().unwrap();
    whole.declare_field(Owner::with_finalizer(2)).ok().unwrap()
}

#[test]
fn a_single_owner_runs_its_finalizer_once() {
    assert_eq!(Owner::with_finalizer(9).finalize(), vec![9]);
}

#[test]
fn an_owner_without_finalizer_runs_nothing() {
    assert_eq!(Owner::plain(9).finalize(), Vec::<u64>::new());
}

#[test]
fn a_composite_runs_its_own_finalizer_then_its_fields_last_declared_first() {
    assert_eq!(composite().finalize(), vec![3, 2, 1]);
}

#[test]
fn a_composite_without_finalizer_ends_its_fields_last_declared_first() {
    let whole = Owner::plain(3);
    let whole = whole.declare_field(Owner::with_finalizer(1)).ok().unwrap();
    let whole = whole.declare_field(Owner::plain(7)).ok().unwrap();
    let whole = whole.declare_field(Owner::with_finalizer(2)).ok().unwrap();
    assert_eq!(whole.finalize(), vec![2, 1]);
}

#[test]
fn nested_composites_end_inner_to_outer() {
    let outer = Owner::with_finalizer(10);
    let outer = outer.declare_field(Owner::with_finalizer(11)).ok().unwrap();
    let outer = outer.declare_field(composite()).ok().unwrap();
    assert_eq!(outer.finalize(), vec![10, 3, 2, 1, 11]);
}

#[test]
fn a_scope_ends_its_locals_in_reverse_declaration_order() {
    let mut scope = Scope::new();
    assert_eq!(scope.declare(composite()), 0);
    assert_eq!(scope.declare(Owner::with_finalizer(4)), 1);
    assert_eq!(scope.ran_so_far(), Vec::<u64>::new());
    assert_eq!(scope.end(), vec![4, 3, 2, 1]);
}

#[test]
fn an_empty_scope_runs_nothing() {
    assert_eq!(Scope::new().end(), Vec::<u64>::new());
}

#[test]
fn release_now_runs_the_finalizer_at_once_and_only_once() {
    let mut scope = Scope::new();
    scope.declare(Owner::with_finalizer(1));
    let slot = scope.declare(Owner::with_finalizer(2));
    scope.declare(Owner::with_finalizer(3));
    scope.release_now(slot);
    assert_eq!(scope.ran_so_far(), vec![2]);
    assert_eq!(scope.end(), vec![2, 3, 1]);
}

#[test]
fn release_now_of_a_copy_leaves_the_local() {
    let mut scope = Scope::new();
    let copy = Owner::plain(5).mark_copy().ok().unwrap();
    let slot = scope.declare(copy);
    scope.declare(Owner::with_finalizer(6));
    scope.release_now(slot);
    scope.release_now(slot);
    assert_eq!(scope.ran_so_far(), Vec::<u64>::new());
    assert_eq!(scope.end(), vec![6]);
}

#[test]
fn a_copy_type_cannot_register_a_finalizer() {
    let copy = Owner::plain(5).mark_copy().ok().unwrap();
    assert!(matches!(copy.register_finalizer(), Err(ProtocolError::FinalizerOnCopy)));
}

#[test]
fn a_type_with_finalizer_cannot_be_copy() {
    assert!(matches!(Owner::with_finalizer(5).mark_copy(), Err(ProtocolError::CopyOfOwner)));
    let registered = Owner::plain(5).register_finalizer().ok().unwrap();
    assert_eq!(registered.finalize(), vec![5]);
}

#[test]
fn a_type_with_an_owning_field_cannot_be_copy() {
    let whole = Owner::plain(1).declare_field(Owner::plain(2)).ok().unwrap();
    assert!(matches!(whole.mark_copy(), Err(ProtocolError::CopyOfOwner)));
    let whole = Owner::plain(1);
    let whole = whole.declare_field(Owner::plain(2).mark_copy().ok().unwrap()).ok().unwrap();
    let whole = whole.declare_field(Owner::with_finalizer(3)).ok().unwrap();
    assert!(matches!(whole.mark_copy(), Err(ProtocolError::CopyOfOwner)));
}

#[test]
fn a_type_of_copy_fields_can_be_copy_and_ends_silently() {
    let field = Owner::plain(2).mark_copy().ok().unwrap();
    let whole = Owner::plain(1).declare_field(field).ok().unwrap();
    let whole = whole.mark_copy().ok().unwrap();
    assert_eq!(whole.finalize(), Vec::<u64>::new());
}

#[test]
fn a_copy_type_takes_only_copy_fields() {
    let copy = Owner::plain(1).mark_copy().ok().unwrap();
    assert!(matches!(copy.declare_field(Owner::plain(2)), Err(ProtocolError::CopyOfOwner)));
    let copy = Owner::plain(1).mark_copy().ok().unwrap();
    let field = Owner::plain(2).mark_copy().ok().unwrap();
    assert!(copy.declare_field(field).is_ok());
}

#[test]
fn the_last_alias_runs_the_finalizers_and_the_others_run_none() {
    let mut heap: Heap<Owner> = Heap::new();
    let a = heap.allocate(composite());
    let b = heap.clone_ptr(&a);
    let c = heap.clone_ptr(&a);
    assert_eq!(end_alias(&mut heap, b), Vec::<u64>::new());
    assert_eq!(end_alias(&mut heap, a), Vec::<u64>::new());
    assert_eq!(heap.finalizer_runs(), 0);
    assert_eq!(end_alias(&mut heap, c), vec![3, 2, 1]);
    assert_eq!(heap.finalizer_runs(), 1);
    assert_eq!(heap.strong_count_at(0), 0);
}

#[test]
fn a_sole_alias_of_a_shared_owner_runs_its_finalizer_once() {
    let mut heap: AtomicHeap<Owner> = AtomicHeap::new();
    let only = heap.allocate(Owner::with_finalizer(8));
    assert_eq!(end_alias(&mut heap, only), vec![8]);
    let plain = heap.allocate(Owner::plain(9));
    assert_eq!(end_alias(&mut heap, plain), Vec::<u64>::new());
    assert_eq!(heap.finalizer_runs(), 2);
}

use ownrt::global_cell::failure_order;
use ownrt::global_cell::GlobalCell;
use ownrt::ids::check_after;
use ownrt::ids::check_before;
use ownrt::ids::generate_shared_id;
use ownrt::ids::record_shared_requests;
use ownrt::ids::Factory;
use ownrt::ids::IdError;
use ownrt::ids::MAX_ID;
use ownrt::state_cell::MemOrder;

#[test]
fn shared_cell_holds_its_initial_value() {
    assert_eq!(GlobalCell::new(0).load(MemOrder::Relaxed), 0);
    assert_eq!(GlobalCell::new(17).load(MemOrder::Acquire), 17);
    assert_eq!(GlobalCell::new(usize::MAX).load(MemOrder::SeqCst), usize::MAX);
}

#[test]
fn shared_fetch_add_returns_the_prior_value_and_wraps() {
    let cell = GlobalCell::new(5);
    assert_eq!(cell.fetch_add(3, MemOrder::Relaxed), 5);
    assert_eq!(cell.fetch_add(1, MemOrder::AcqRel), 8);
    assert_eq!(cell.load(MemOrder::Relaxed), 9);
    let cell = GlobalCell::new(usize::MAX);
    assert_eq!(cell.fetch_add(2, MemOrder::SeqCst), usize::MAX);
    assert_eq!(cell.load(MemOrder::Relaxed), 1);
}

#[test]
fn shared_compare_and_swap_writes_only_on_a_match() {
    for order in [
        MemOrder::Relaxed,
        MemOrder::Acquire,
        MemOrder::Release,
        MemOrder::AcqRel,
        MemOrder::SeqCst,
    ] {
        let cell = GlobalCell::new(5);
        assert!(!cell.compare_and_swap(4, 9, order));
        assert_eq!(cell.load(MemOrder::Relaxed), 5);
        assert!(cell.compare_and_swap(5, 9, order));
        assert_eq!(cell.load(MemOrder::Relaxed), 9);
    }
}

#[test]
fn failure_order_is_the_reading_part_of_an_ordering() {
    assert_eq!(failure_order(MemOrder::Relaxed), MemOrder::Relaxed);
    assert_eq!(failure_order(MemOrder::Acquire), MemOrder::Acquire);
    assert_eq!(failure_order(MemOrder::Release), MemOrder::Relaxed);
    assert_eq!(failure_order(MemOrder::AcqRel), MemOrder::Acquire);
    assert_eq!(failure_order(MemOrder::SeqCst), MemOrder::SeqCst);
}

#[test]
fn one_hundred_single_steps_on_a_shared_cell_leave_one_hundred() {
    let cell = GlobalCell::new(0);
    for _ in 0..100 {
        cell.fetch_add(1, MemOrder::Relaxed);
    }
    assert_eq!(cell.load(MemOrder::Relaxed), 100);
    record_shared_requests(&cell, 100);
    assert_eq!(cell.load(MemOrder::Relaxed), 200);
}

#[test]
fn checks_around_the_draw() {
    assert_eq!(check_before(0), Ok(()));
    assert_eq!(check_before(MAX_ID), Ok(()));
    assert_eq!(check_before(MAX_ID + 1), Err(IdError::Exhausted));
    assert_eq!(check_after(1), Ok(1));
    assert_eq!(check_after(MAX_ID), Ok(MAX_ID));
    assert_eq!(check_after(MAX_ID + 1), Err(IdError::Overflowed));
}

#[test]
fn shared_identifiers_are_drawn_in_turn() {
    let counter = GlobalCell::new(0);
    assert_eq!(generate_shared_id(&counter), Ok(1));
    assert_eq!(generate_shared_id(&counter), Ok(2));
    assert_eq!(counter.load(MemOrder::Relaxed), 2);
    let factory = Factory::new_shared(&counter).ok().unwrap();
    assert_eq!(factory.factory_id(), 3);
}

#[test]
fn shared_identifiers_never_pass_the_maximum() {
    let counter = GlobalCell::new(MAX_ID);
    assert_eq!(generate_shared_id(&counter), Err(IdError::Overflowed));
    assert_eq!(generate_shared_id(&counter), Err(IdError::Exhausted));
    assert_eq!(counter.load(MemOrder::Relaxed), MAX_ID + 1);
    assert!(matches!(Factory::new_shared(&counter), Err(IdError::Exhausted)));
}

#[test]
fn a_factory_carries_what_was_drawn_for_it() {
    assert_eq!(Factory::from_drawn(Ok(7)).ok().unwrap().factory_id(), 7);
    assert_eq!(Factory::from_drawn(Ok(0)).ok().unwrap().factory_id(), 0);
    assert!(matches!(Factory::from_drawn(Err(IdError::Exhausted)), Err(IdError::Exhausted)));
    assert!(matches!(Factory::from_drawn(Err(IdError::Overflowed)), Err(IdError::Overflowed)));
}

use ownrt::history::perform_adds;
use ownrt::history::Add;
use ownrt::ids::generate_id;
use ownrt::ids::record_requests;
use ownrt::ids::Factory;
use ownrt::ids::IdError;
use ownrt::ids::MAX_ID;
use ownrt::state_cell::MemOrder;
use ownrt::state_cell::StateCell;

#[test]
fn new_cell_holds_its_initial_value() {
    assert_eq!(StateCell::new(0).load(MemOrder::Relaxed), 0);
    assert_eq!(StateCell::new(17).load(MemOrder::SeqCst), 17);
    assert_eq!(StateCell::new(usize::MAX).load(MemOrder::Acquire), usize::MAX);
}

#[test]
fn fetch_add_returns_the_prior_value() {
    let mut cell = StateCell::new(5);
    assert_eq!(cell.fetch_add(3, MemOrder::Relaxed), 5);
    assert_eq!(cell.fetch_add(0, MemOrder::Relaxed), 8);
    assert_eq!(cell.load(MemOrder::Relaxed), 8);
}

#[test]
fn fetch_add_wraps_at_the_top() {
    let mut cell = StateCell::new(usize::MAX);
    assert_eq!(cell.fetch_add(1, MemOrder::Relaxed), usize::MAX);
    assert_eq!(cell.load(MemOrder::Relaxed), 0);
    let mut cell = StateCell::new(usize::MAX - 1);
    cell.fetch_add(5, MemOrder::Relaxed);
    assert_eq!(cell.load(MemOrder::Relaxed), 3);
}

#[test]
fn fetch_sub_returns_the_prior_value_and_wraps_below_zero() {
    let mut cell = StateCell::new(5);
    assert_eq!(cell.fetch_sub(3, MemOrder::Release), 5);
    assert_eq!(cell.load(MemOrder::Relaxed), 2);
    assert_eq!(cell.fetch_sub(3, MemOrder::Release), 2);
    assert_eq!(cell.load(MemOrder::Relaxed), usize::MAX);
}

#[test]
fn compare_and_swap_writes_only_on_a_match() {
    let mut cell = StateCell::new(5);
    assert!(!cell.compare_and_swap(4, 9, MemOrder::SeqCst));
    assert_eq!(cell.load(MemOrder::Relaxed), 5);
    assert!(cell.compare_and_swap(5, 9, MemOrder::SeqCst));
    assert_eq!(cell.load(MemOrder::Relaxed), 9);
    assert!(cell.compare_and_swap(9, 9, MemOrder::SeqCst));
    assert_eq!(cell.load(MemOrder::Relaxed), 9);
}

#[test]
fn one_hundred_single_steps_leave_one_hundred() {
    let mut cell = StateCell::new(0);
    for _ in 0..100 {
        cell.fetch_add(1, MemOrder::Relaxed);
    }
    assert_eq!(cell.load(MemOrder::Relaxed), 100);
}

#[test]
fn record_requests_counts_each_request() {
    let mut cell = StateCell::new(0);
    record_requests(&mut cell, 100);
    assert_eq!(cell.load(MemOrder::Relaxed), 100);
    record_requests(&mut cell, 0);
    assert_eq!(cell.load(MemOrder::Relaxed), 100);
    let mut cell = StateCell::new(usize::MAX - 1);
    record_requests(&mut cell, 3);
    assert_eq!(cell.load(MemOrder::Relaxed), 1);
}

#[test]
fn orderings_say_what_they_publish_and_see() {
    assert!(!MemOrder::Relaxed.acquires());
    assert!(!MemOrder::Relaxed.releases());
    assert!(MemOrder::Acquire.acquires());
    assert!(!MemOrder::Acquire.releases());
    assert!(!MemOrder::Release.acquires());
    assert!(MemOrder::Release.releases());
    assert!(MemOrder::AcqRel.acquires() && MemOrder::AcqRel.releases());
    assert!(MemOrder::SeqCst.acquires() && MemOrder::SeqCst.releases());
}

#[test]
fn a_read_cannot_be_asked_to_release() {
    assert!(MemOrder::Relaxed.fits_load());
    assert!(MemOrder::Acquire.fits_load());
    assert!(MemOrder::SeqCst.fits_load());
    assert!(!MemOrder::Release.fits_load());
    assert!(!MemOrder::AcqRel.fits_load());
}

fn interleaving(contexts: usize, each: usize, round_robin: bool) -> Vec<Add> {
    let mut adds = Vec::new();
    if round_robin {
        for _ in 0..each {
            for context in 0..contexts {
                adds.push(Add { context, delta: 1 });
            }
        }
    } else {
        for context in (0..contexts).rev() {
            for _ in 0..each {
                adds.push(Add { context, delta: 1 });
            }
        }
    }
    adds
}

#[test]
fn counter_settles_whatever_the_interleaving() {
    for round_robin in [true, false] {
        let mut cell = StateCell::new(7);
        perform_adds(&mut cell, &interleaving(4, 25, round_robin));
        assert_eq!(cell.load(MemOrder::Relaxed), 7 + 4 * 25);
    }
    let mut cell = StateCell::new(7);
    let mut mixed = interleaving(3, 2, true);
    mixed.swap(0, 5);
    mixed.swap(1, 3);
    perform_adds(&mut cell, &mixed);
    assert_eq!(cell.load(MemOrder::Relaxed), 7 + 3 * 2);
}

#[test]
fn perform_adds_takes_each_delta_in_order() {
    let mut cell = StateCell::new(1);
    let adds = vec![Add { context: 0, delta: 10 }, Add { context: 1, delta: 200 }];
    perform_adds(&mut cell, &adds);
    assert_eq!(cell.load(MemOrder::Relaxed), 211);
    perform_adds(&mut cell, &Vec::new());
    assert_eq!(cell.load(MemOrder::Relaxed), 211);
}

#[test]
fn max_id_is_half_the_range() {
    assert_eq!(MAX_ID, usize::MAX / 2);
}

#[test]
fn generate_id_draws_one_more_than_the_counter_held() {
    let mut counter = StateCell::new(0);
    assert_eq!(generate_id(&mut counter), Ok(1));
    assert_eq!(generate_id(&mut counter), Ok(2));
    assert_eq!(generate_id(&mut counter), Ok(3));
    assert_eq!(counter.load(MemOrder::Relaxed), 3);
}

#[test]
fn generate_id_reaches_the_largest_identifier() {
    let mut counter = StateCell::new(MAX_ID - 1);
    assert_eq!(generate_id(&mut counter), Ok(MAX_ID));
    assert_eq!(counter.load(MemOrder::Relaxed), MAX_ID);
}

#[test]
fn generate_id_reports_the_step_that_overflows() {
    let mut counter = StateCell::new(MAX_ID);
    assert_eq!(generate_id(&mut counter), Err(IdError::Overflowed));
    assert_eq!(counter.load(MemOrder::Relaxed), MAX_ID + 1);
}

#[test]
fn generate_id_leaves_an_exhausted_counter_alone() {
    let mut counter = StateCell::new(MAX_ID + 1);
    assert_eq!(generate_id(&mut counter), Err(IdError::Exhausted));
    assert_eq!(counter.load(MemOrder::Relaxed), MAX_ID + 1);
    let mut counter = StateCell::new(usize::MAX);
    assert_eq!(generate_id(&mut counter), Err(IdError::Exhausted));
    assert_eq!(counter.load(MemOrder::Relaxed), usize::MAX);
}

#[test]
fn factories_carry_consecutive_identifiers() {
    let mut counter = StateCell::new(0);
    let first = Factory::new(&mut counter).ok().unwrap();
    let second = Factory::new(&mut counter).ok().unwrap();
    assert_eq!(first.factory_id(), 1);
    assert_eq!(second.factory_id(), 2);
    let mut spent = StateCell::new(MAX_ID);
    assert!(matches!(Factory::new(&mut spent), Err(IdError::Overflowed)));
}

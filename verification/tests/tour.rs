use ownrt::atomic_shared::AtomicHeap;
use ownrt::capability::Rendering;
use ownrt::tour::capability_tour::boxed_one;
use ownrt::tour::capability_tour::draw_elements;
use ownrt::tour::capability_tour::draw_shared_elements;
use ownrt::tour::capability_tour::draw_two_elements;
use ownrt::tour::clone_example;
use ownrt::tour::deref_tour::arithmetic_on_target;
use ownrt::tour::deref_tour::display;
use ownrt::tour::deref_tour::nested_layers;
use ownrt::tour::deref_tour::one_hop;
use ownrt::tour::deref_tour::own_pointer_target;
use ownrt::tour::deref_tour::read_and_write_through;
use ownrt::tour::deref_tour::through_a_reference;
use ownrt::tour::deref_tour::two_hops;
use ownrt::tour::deref_tour::variable_and_target;
use ownrt::tour::drop_tour::copy_example;
use ownrt::tour::drop_tour::drop_example;
use ownrt::tour::drop_tour::end_of_block;
use ownrt::tour::drop_tour::has_two_drops;
use ownrt::tour::drop_tour::release_early;
use ownrt::tour::drop_tour::FOO;
use ownrt::tour::drop_tour::HAS_DROP1;
use ownrt::tour::drop_tour::HAS_DROP2;
use ownrt::tour::drop_tour::HAS_TWO_DROPS;
use ownrt::tour::global_tour::init;
use ownrt::tour::global_tour::requests_received;
use ownrt::tour::global_tour::startup_config;
use ownrt::tour::global_tour::three_factories;
use ownrt::tour::narrow;
use ownrt::tour::shared_tour::count_after_clone;
use ownrt::tour::shared_tour::count_through_clones;
use ownrt::tour::shared_tour::life_of_a_record;
use ownrt::tour::shared_tour::moved_into_owner;
use ownrt::tour::shared_tour::play_shared_own;
use ownrt::tour::shared_tour::receivers_of_owners;
use ownrt::tour::shared_tour::two_aliases_one_record;
use ownrt::tour::try_from_and_try_into_example;
use ownrt::tour::unique_tour::append_through_owner;
use ownrt::tour::unique_tour::borrow_the_owner;
use ownrt::tour::unique_tour::boxed_number;
use ownrt::tour::unique_tour::boxed_point;
use ownrt::tour::unique_tour::call_through_owner;
use ownrt::tour::unique_tour::clones_are_independent;
use ownrt::tour::unique_tour::copy_out_twice;
use ownrt::tour::unique_tour::move_out_once;
use ownrt::tour::unique_tour::owner_as_receiver;
use ownrt::tour::unique_tour::owners_in_a_vector;
use ownrt::tour::unique_tour::pass_by_value;
use ownrt::tour::unique_tour::receivers_of_an_owner;
use ownrt::tour::unique_tour::returned_string;
use ownrt::tour::unique_tour::take_ownership;
use ownrt::tour::unique_tour::to_owned_example;
use ownrt::tour::Play;
use ownrt::tour::Point;
use ownrt::unique::UniquePtr;

#[test]
fn tour_of_the_unique_pointer() {
    assert_eq!(returned_string(), "abc");
    assert_eq!(to_owned_example(), "hjkl1!");
    assert_eq!(boxed_number().move_out(), 100);
    assert_eq!(boxed_point().move_out(), Point { x: 32, y: 23 });
    assert_eq!(copy_out_twice(), (5, 5));
    assert_eq!(move_out_once(), "");
    assert_eq!(call_through_owner(), (Play::Moving, Point { x: 32, y: 64 }));
    assert_eq!(append_through_owner(), "hjkl1!!!");
    assert!(!clones_are_independent());
    assert_eq!(take_ownership(UniquePtr::allocate(Point { x: 4, y: 5 })), Point { x: 4, y: 5 });
    assert_eq!(pass_by_value(), Point { x: 0, y: 1 });
    assert_eq!(
        borrow_the_owner(),
        (Play::Playing, Play::Playing, Point { x: 10, y: 11 }, Point { x: 0, y: 0 })
    );
    assert_eq!(receivers_of_an_owner(), vec![Play::ByRef, Play::ByMutRef, Play::ByValue]);
    assert_eq!(owner_as_receiver(), vec![Play::ByRef, Play::ByMutRef, Play::ByOwner]);
    assert_eq!(owners_in_a_vector(), 2);
}

#[test]
fn tour_of_the_shared_pointers() {
    assert_eq!(moved_into_owner().move_out(), "hello world!");
    assert_eq!(count_after_clone(), (1, 2, 2));
    assert_eq!(
        two_aliases_one_record(),
        (Point { x: 10, y: 20 }, Point { x: 10, y: 20 }, Play::Playing, Play::Playing)
    );
    assert_eq!(
        receivers_of_owners(),
        vec![Play::ByRef, Play::ByMutRef, Play::ByOwner, Play::ByRef, Play::BySharedOwner]
    );
    assert_eq!(life_of_a_record(), (3, 1, 0, 1));
}

#[test]
fn counts_through_any_number_of_clones() {
    for n in [0usize, 1, 2, 3, 10, 100, 1000] {
        assert_eq!(count_through_clones(n), (n + 1, 1));
    }
}

#[test]
fn tour_of_the_dereference_protocol() {
    assert_eq!(display("shown"), "shown");
    assert_eq!(through_a_reference(), 32);
    assert_eq!(variable_and_target(), (6, 6));
    assert_eq!(arithmetic_on_target(), 256);
    assert_eq!(own_pointer_target(), 1023);
    assert_eq!(one_hop(), "value");
    assert_eq!(two_hops(), "hello world!");
    assert_eq!(nested_layers(), (7, 7));
    assert_eq!(read_and_write_through(), (String::from("hello, rust!"), 2));
}

#[test]
fn tour_of_the_destruction_protocol() {
    assert_eq!(has_two_drops().finalize(), vec![HAS_TWO_DROPS, HAS_DROP2, HAS_DROP1]);
    assert_eq!(end_of_block(), vec![FOO, HAS_TWO_DROPS, HAS_DROP2, HAS_DROP1]);
    assert_eq!(release_early(), (vec![FOO], vec![FOO]));
    assert_eq!(drop_example(), Vec::<u64>::new());
    assert_eq!(copy_example(), (Point { x: 10, y: 23 }, Point { x: 10, y: 23 }, false));
}

#[test]
fn tour_of_the_capabilities() {
    assert_eq!(boxed_one(), 1);
    let expected = vec![Rendering::Select(101), Rendering::Button(1), Rendering::Select(0)];
    assert_eq!(draw_elements(), expected);
    assert_eq!(draw_shared_elements(), expected);
    assert_eq!(draw_two_elements(), vec![Rendering::Select(3), Rendering::Button(0)]);
}

#[test]
fn tour_of_the_global_cell() {
    assert_eq!(requests_received(), 100);
    assert_eq!(three_factories(), Ok((1, 3)));
    let config = startup_config().unwrap().move_out();
    assert_eq!((config.a.as_str(), config.b.as_str()), ("hello", "hjkl1"));
    let config = init().unwrap().move_out();
    assert_eq!((config.a.as_str(), config.b.as_str()), ("halo", "world"));
}

#[test]
fn tour_of_cloning_and_narrowing() {
    clone_example();
    try_from_and_try_into_example();
    assert_eq!(narrow(0), Some(0));
    assert_eq!(narrow(255), Some(255));
    assert_eq!(narrow(256), None);
    assert_eq!(narrow(usize::MAX), None);
}

#[test]
fn each_receiver_reports_how_it_was_reached() {
    let mut point = Point { x: 1, y: 2 };
    assert_eq!(point.move_forward(), Play::Moving);
    assert_eq!(point.play(), Play::Playing);
    assert_eq!(point.play_ref(), Play::ByRef);
    assert_eq!(point.play_mut_ref(), Play::ByMutRef);
    assert_eq!(point, Point { x: 1, y: 2 });
    assert_eq!(point.play_own(), Play::ByValue);
    assert_eq!(Point::play_box_own(UniquePtr::allocate(point)), Play::ByOwner);
    let mut heap: AtomicHeap<Point> = AtomicHeap::new();
    let kept = heap.allocate(point);
    let given = heap.clone_ptr(&kept);
    assert_eq!(play_shared_own(&mut heap, given), Play::BySharedOwner);
    assert_eq!(heap.strong_count(&kept), 1);
}

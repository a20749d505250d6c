use ownrt::unique::round_trip;
use ownrt::unique::UniquePtr;

#[test]
fn allocate_then_move_out_returns_the_value() {
    let ptr = UniquePtr::allocate(String::from("hello world!"));
    assert_eq!(ptr.move_out(), "hello world!");
}

#[test]
fn allocate_then_move_out_returns_every_kind_of_value() {
    assert_eq!(UniquePtr::allocate(0u8).move_out(), 0u8);
    assert_eq!(UniquePtr::allocate(-7i64).move_out(), -7i64);
    assert_eq!(UniquePtr::allocate((1u32, true)).move_out(), (1u32, true));
    assert_eq!(UniquePtr::allocate(vec![1, 2, 3]).move_out(), vec![1, 2, 3]);
    assert_eq!(UniquePtr::allocate(None::<u8>).move_out(), None);
}

#[test]
fn dereference_shows_the_payload_and_keeps_the_owner() {
    let ptr = UniquePtr::allocate(41u32);
    assert_eq!(*ptr.dereference(), 41);
    assert_eq!(*ptr.dereference(), 41);
    assert_eq!(ptr.move_out(), 41);
}

#[test]
fn dereference_mut_writes_in_place() {
    let mut ptr = UniquePtr::allocate(String::from("hjkl1"));
    ptr.dereference_mut().push_str("!!!");
    assert_eq!(ptr.dereference(), "hjkl1!!!");
    *ptr.dereference_mut() = String::from("other");
    assert_eq!(ptr.move_out(), "other");
}

#[test]
fn replace_hands_back_the_previous_payload() {
    let mut ptr = UniquePtr::allocate(1u32);
    assert_eq!(ptr.replace(2), 1);
    assert_eq!(ptr.replace(3), 2);
    assert_eq!(ptr.move_out(), 3);
}

#[test]
fn duplicate_owns_a_payload_of_its_own() {
    let source = UniquePtr::allocate(1024u32);
    let mut copy = source.duplicate();
    assert_eq!(*copy.dereference(), 1024);
    copy.replace(1);
    assert_eq!(*source.dereference(), 1024);
    assert_eq!(*copy.dereference(), 1);
}

#[test]
fn moving_the_owner_moves_the_allocation() {
    let first = UniquePtr::allocate(vec![10u8, 20]);
    let second = first;
    assert_eq!(second.move_out(), vec![10u8, 20]);
}

#[test]
fn round_trip_returns_what_it_was_given() {
    assert_eq!(round_trip(42u64), 42);
    assert_eq!(round_trip(String::from("abc")), "abc");
    assert_eq!(round_trip(vec![Some(1u8), None]), vec![Some(1u8), None]);
}

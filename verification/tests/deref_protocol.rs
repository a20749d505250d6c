use ownrt::capability::render_boxed;
use ownrt::capability::render_each;
use ownrt::capability::render_shared;
use ownrt::capability::Button;
use ownrt::capability::Render;
use ownrt::capability::Rendering;
use ownrt::capability::Select;
use ownrt::capability::Widget;
use ownrt::deref::coerce;
use ownrt::deref::coerce_through;
use ownrt::deref::GoodBox;
use ownrt::deref::Pointer;
use ownrt::shared::Heap;
use ownrt::unique::UniquePtr;

#[test]
fn own_pointer_reaches_its_target() {
    let y = GoodBox::new(1023);
    assert_eq!(1023, *y);
    assert_eq!(*y.hop(), 1023);
    assert_eq!(*coerce(&y), 1023);
}

#[test]
fn own_pointer_writes_its_target() {
    let mut gb = GoodBox::new(1);
    *gb = 2;
    assert_eq!(*gb, 2);
    assert_eq!(gb.0, 2);
}

#[test]
fn unique_pointer_reaches_its_target() {
    let x = UniquePtr::allocate(1024);
    assert_eq!(*x >> 2, 256);
    assert_eq!(*coerce(&x), 1024);
}

#[test]
fn two_hops_reach_the_address_of_two_manual_dereferences() {
    let nested = UniquePtr::allocate(UniquePtr::allocate(String::from("hello world!")));
    let coerced: &String = coerce_through(&nested);
    let manual: &String = &**nested;
    assert!(std::ptr::eq(coerced, manual));
    assert_eq!(coerced, "hello world!");
    let by_methods: &String = nested.dereference().dereference();
    assert!(std::ptr::eq(coerced, by_methods));
}

#[test]
fn two_hops_through_mixed_layers() {
    let nested = GoodBox::new(UniquePtr::allocate(7u8));
    let coerced: &u8 = coerce_through(&nested);
    assert!(std::ptr::eq(coerced, &**nested));
    assert_eq!(*coerced, 7);
}

#[test]
fn a_call_site_coerces_references_through_both_layers() {
    fn display(s: &str) -> usize {
        s.len()
    }
    let s = UniquePtr::allocate(String::from("hello world!"));
    assert_eq!(display(&s), 12);
}

#[test]
fn each_type_draws_itself() {
    assert_eq!(Button { bid: 1 }.render(), Rendering::Button(1));
    assert_eq!(Select { sid: -4 }.render(), Rendering::Select(-4));
    assert_eq!(Widget::from_button(Button { bid: 2 }).render(), Rendering::Button(2));
    assert_eq!(Widget::from_select(Select { sid: 3 }).render(), Rendering::Select(3));
}

#[test]
fn owners_of_two_types_are_drawn_through_one_capability() {
    let elements = vec![
        UniquePtr::allocate(Widget::from_select(Select { sid: 101 })),
        UniquePtr::allocate(Widget::from_button(Button { bid: 1 })),
        UniquePtr::allocate(Widget::from_select(Select { sid: 0 })),
    ];
    assert_eq!(
        render_each(elements),
        vec![Rendering::Select(101), Rendering::Button(1), Rendering::Select(0)]
    );
    assert_eq!(render_each(Vec::<UniquePtr<Button>>::new()), Vec::new());
}

#[test]
fn shared_owners_are_drawn_through_their_aliases() {
    let mut heap: Heap<Widget> = Heap::new();
    let button = heap.allocate(Widget::from_button(Button { bid: 8 }));
    let select = heap.allocate(Widget::from_select(Select { sid: 9 }));
    let again = heap.clone_ptr(&button);
    let ptrs = vec![select, button, again];
    assert_eq!(
        render_shared(&heap, &ptrs),
        vec![Rendering::Select(9), Rendering::Button(8), Rendering::Button(8)]
    );
    assert_eq!(heap.strong_count(&ptrs[1]), 2);
}

#[test]
fn boxed_elements_of_two_types_are_drawn_through_their_tables() {
    let elements: Vec<Box<dyn Render>> = vec![
        Box::new(Select { sid: 101 }),
        Box::new(Button { bid: 1 }),
        Box::new(Select { sid: 0 }),
        Box::new(Widget::from_button(Button { bid: 5 })),
    ];
    assert_eq!(
        render_boxed(elements),
        vec![
            Rendering::Select(101),
            Rendering::Button(1),
            Rendering::Select(0),
            Rendering::Button(5)
        ]
    );
}

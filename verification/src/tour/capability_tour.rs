//! Walks with owners of several payload types behind one capability.
use vstd::prelude::*;
use crate::capability::render_each;
use crate::capability::render_shared;
use crate::capability::renderings;
use crate::capability::shared_renderings;
use crate::capability::Button;
use crate::capability::Rendering;
use crate::capability::Select;
use crate::capability::Widget;
use crate::atomic_shared::AtomicHeap;
use crate::atomic_shared::AtomicSharedPtr;
use crate::unique::UniquePtr;

verus! {

/// A number on the heap, read back through its owner.
pub fn boxed_one() -> (seen: i32)
    ensures
        seen == 1,
{
    let a = UniquePtr::allocate(1i32);
    *a
}

/// Three elements of two types in one vector, each drawn through the
/// capability in the order in which they were stored.
pub fn draw_elements() -> (shown: Vec<Rendering>)
    ensures
        shown@ == seq![Rendering::Select(101), Rendering::Button(1), Rendering::Select(0)],
{
    let mut elements: Vec<UniquePtr<Widget>> = Vec::new();
    elements.push(UniquePtr::allocate(Widget::from_select(Select { sid: 101 })));
    elements.push(UniquePtr::allocate(Widget::from_button(Button { bid: 1 })));
    elements.push(UniquePtr::allocate(Widget::from_select(Select { sid: 0 })));
    proof {
        assert(renderings(elements@) =~= seq![
            Rendering::Select(101),
            Rendering::Button(1),
            Rendering::Select(0),
        ]);
    }
    render_each(elements)
}

/// Two elements of two types, a select box and then a button.
pub fn draw_two_elements() -> (shown: Vec<Rendering>)
    ensures
        shown@ == seq![Rendering::Select(3), Rendering::Button(0)],
{
    let mut elements: Vec<UniquePtr<Widget>> = Vec::new();
    elements.push(UniquePtr::allocate(Widget::from_select(Select { sid: 3 })));
    elements.push(UniquePtr::allocate(Widget::from_button(Button { bid: 0 })));
    proof {
        assert(renderings(elements@) =~= seq![Rendering::Select(3), Rendering::Button(0)]);
    }
    render_each(elements)
}

/// The same collection behind shared owners: the elements are drawn
/// through the aliases, and every alias is released afterwards.
pub fn draw_shared_elements() -> (shown: Vec<Rendering>)
    ensures
        shown@ == seq![Rendering::Select(101), Rendering::Button(1), Rendering::Select(0)],
{
    let mut heap: AtomicHeap<Widget> = AtomicHeap::new();
    let first = heap.allocate(Widget::from_select(Select { sid: 101 }));
    let second = heap.allocate(Widget::from_button(Button { bid: 1 }));
    let third = heap.allocate(Widget::from_select(Select { sid: 0 }));
    let mut elements: Vec<AtomicSharedPtr> = Vec::new();
    elements.push(first);
    elements.push(second);
    elements.push(third);
    proof {
        assert(heap.owns(&elements@[0]));
        assert(heap.owns(&elements@[1]));
        assert(heap.owns(&elements@[2]));
        assert(shared_renderings(&heap, elements@) =~= seq![
            Rendering::Select(101),
            Rendering::Button(1),
            Rendering::Select(0),
        ]);
    }
    let shown = render_shared(&heap, &elements);
    let third = elements.pop().unwrap();
    let second = elements.pop().unwrap();
    let first = elements.pop().unwrap();
    heap.release(third);
    heap.release(second);
    heap.release(first);
    shown
}

} // verus!

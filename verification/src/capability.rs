//! Dynamic capabilities: owners of different payload types behind one
//! capability.
//!
//! `Render` is the capability. `Button` and `Select` are two payload types
//! that have it. A collection holds owners of both in one of two forms. A
//! boxed trait object pairs the payload with the function table of its
//! type, and `render_boxed` invokes each through its table. A `Widget`
//! names the table by its variant, so that a pointer of this crate, unique
//! or shared, can own either type and `render_each` and `render_shared`
//! invoke each without knowing which one is behind it.
use vstd::prelude::*;
use crate::counter::Counter;
use crate::heap::all_owned;
use crate::heap::Alias;
use crate::heap::CountedHeap;
use crate::unique::UniquePtr;

verus! {

/// What a payload draws: the kind of element and the number it carries.
#[derive(Clone, Copy, Debug, PartialEq, Eq, Structural)]
pub enum Rendering {
    Button(u32),
    Select(i32),
}

/// The capability to draw oneself.
pub trait Render {
    /// What this value draws.
    spec fn rendering(&self) -> Rendering;

    /// Draws this value.
    fn render(&self) -> (shown: Rendering)
        ensures
            shown == self.rendering(),
    ;
}

/// A button, known by its place on the screen.
pub struct Button {
    pub bid: u32,
}

/// A select box, known by its number.
pub struct Select {
    pub sid: i32,
}

impl Render for Button {
    open spec fn rendering(&self) -> Rendering {
        Rendering::Button(self.bid)
    }

    fn render(&self) -> (shown: Rendering) {
        Rendering::Button(self.bid)
    }
}

impl Render for Select {
    open spec fn rendering(&self) -> Rendering {
        Rendering::Select(self.sid)
    }

    fn render(&self) -> (shown: Rendering) {
        Rendering::Select(self.sid)
    }
}

/// An owner in wide form: the variant selects the function table, the
/// field is the payload.
pub enum Widget {
    Button(Button),
    Select(Select),
}

impl Widget {
    /// The wide form of a button.
    pub fn from_button(button: Button) -> (wide: Widget)
        ensures
            wide == Widget::Button(button),
            wide.rendering() == button.rendering(),
    {
        Widget::Button(button)
    }

    /// The wide form of a select box.
    pub fn from_select(select: Select) -> (wide: Widget)
        ensures
            wide == Widget::Select(select),
            wide.rendering() == select.rendering(),
    {
        Widget::Select(select)
    }
}

impl Render for Widget {
    open spec fn rendering(&self) -> Rendering {
        match self {
            Widget::Button(button) => button.rendering(),
            Widget::Select(select) => select.rendering(),
        }
    }

    fn render(&self) -> (shown: Rendering) {
        match self {
            Widget::Button(button) => button.render(),
            Widget::Select(select) => select.render(),
        }
    }
}

/// What each of `owners` draws, in order.
pub open spec fn renderings<W: Render>(owners: Seq<UniquePtr<W>>) -> Seq<Rendering> {
    Seq::new(owners.len(), |i: int| owners[i]@.rendering())
}

/// Invokes the capability on each owner in turn and then lets the owners
/// end.
pub fn render_each<W: Render>(owners: Vec<UniquePtr<W>>) -> (shown: Vec<Rendering>)
    ensures
        shown@ == renderings(owners@),
{
    let mut shown: Vec<Rendering> = Vec::new();
    let mut i: usize = 0;
    while i < owners.len()
        invariant
            i <= owners@.len(),
            shown@.len() == i,
            forall|k: int| 0 <= k < i ==> shown@[k] == (#[trigger] owners@[k])@.rendering(),
        decreases owners@.len() - i,
    {
        shown.push(owners[i].dereference().render());
        i = i + 1;
    }
    assert(shown@ =~= renderings(owners@));
    shown
}

/// What the payloads behind `ptrs` draw, in order.
pub open spec fn shared_renderings<W: Render, C: Counter>(
    heap: &CountedHeap<W, C>,
    ptrs: Seq<Alias<C>>,
) -> Seq<Rendering> {
    Seq::new(ptrs.len(), |i: int| heap.payload_at(ptrs[i].spec_addr() as int)->0.rendering())
}

/// Invokes the capability on the payload behind each shared pointer in
/// turn. The pointers stay with the caller.
pub fn render_shared<W: Render, C: Counter>(heap: &CountedHeap<W, C>, ptrs: &Vec<Alias<C>>) -> (shown:
    Vec<Rendering>)
    requires
        heap.wf(),
        all_owned(heap, ptrs@),
    ensures
        shown@ == shared_renderings(heap, ptrs@),
{
    let mut shown: Vec<Rendering> = Vec::new();
    let mut i: usize = 0;
    while i < ptrs.len()
        invariant
            heap.wf(),
            all_owned(heap, ptrs@),
            i <= ptrs@.len(),
            shown@.len() == i,
            forall|k: int|
                0 <= k < i ==> shown@[k] == heap.payload_at(
                    (#[trigger] ptrs@[k]).spec_addr() as int,
                )->0.rendering(),
        decreases ptrs@.len() - i,
    {
        assert(heap.owns(&ptrs@[i as int]));
        shown.push(heap.get(&ptrs[i]).render());
        i = i + 1;
    }
    assert(shown@ =~= shared_renderings(heap, ptrs@));
    shown
}

/// What each of the boxed `elements` draws, in order.
pub open spec fn boxed_renderings(elements: Seq<Box<dyn Render>>) -> Seq<Rendering> {
    Seq::new(elements.len(), |i: int| elements[i].rendering())
}

/// Invokes the capability on each element through its function table,
/// whatever the type behind the box, and then lets the elements end.
pub fn render_boxed(elements: Vec<Box<dyn Render>>) -> (shown: Vec<Rendering>)
    ensures
        shown@ == boxed_renderings(elements@),
{
    let mut shown: Vec<Rendering> = Vec::new();
    let mut i: usize = 0;
    while i < elements.len()
        invariant
            i <= elements@.len(),
            shown@.len() == i,
            forall|k: int| 0 <= k < i ==> shown@[k] == (#[trigger] elements@[k]).rendering(),
        decreases elements@.len() - i,
    {
        shown.push(elements[i].render());
        i = i + 1;
    }
    assert(shown@ =~= boxed_renderings(elements@));
    shown
}

} // verus!

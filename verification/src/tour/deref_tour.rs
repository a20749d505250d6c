//! Walks with the dereference protocol.
use vstd::prelude::*;
use vstd::string::StringExecFns;
use crate::deref::coerce_through;
use crate::deref::GoodBox;
use crate::unique::UniquePtr;

verus! {

/// A function that expects borrowed text. It hands back what it was shown.
pub fn display(s: &str) -> (shown: &str)
    ensures
        shown@ == s@,
{
    s
}

/// A plain reference is dereferenced with `*`.
pub fn through_a_reference() -> (seen: i32)
    ensures
        seen == 32,
{
    let x: i32 = 32;
    let y = &x;
    *y
}

/// The variable and the target of a reference to it are the same value.
pub fn variable_and_target() -> (seen: (i32, i32))
    ensures
        seen == (6i32, 6i32),
{
    let x: i32 = 6;
    let y = &x;
    (x, *y)
}

/// The target of a unique owner takes part in arithmetic like any value.
pub fn arithmetic_on_target() -> (quarter: i32)
    ensures
        quarter == 256,
{
    let x = UniquePtr::allocate(1024i32);
    let target: i32 = *x;
    assert(1024i32 >> 2 == 256i32) by (bit_vector);
    target >> 2
}

/// A pointer type of one's own can be dereferenced once it declares its
/// target.
pub fn own_pointer_target() -> (seen: i32)
    ensures
        seen == 1023,
{
    let y = GoodBox::<i32>::new(1023);
    *y
}

/// Where borrowed text is expected and a borrowed string is supplied, the
/// call site takes the one hop from the string to its text.
pub fn one_hop() -> (shown: String)
    ensures
        shown@ == "value"@,
{
    let s = String::from_str("value");
    let seen = display(&s);
    String::from_str(seen)
}

/// Where borrowed text is expected and a borrowed owner of a string is
/// supplied, the call site takes both hops: from the owner to the string,
/// and from the string to its text.
pub fn two_hops() -> (shown: String)
    ensures
        shown@ == "hello world!"@,
{
    let s = UniquePtr::allocate(String::from_str("hello world!"));
    let seen = display(&s);
    String::from_str(seen)
}

/// Through two layers of pointers the protocol's two hops reach what two
/// explicit dereferences reach.
pub fn nested_layers() -> (seen: (u8, u8))
    ensures
        seen.0 == seen.1,
        seen.0 == 7,
{
    let nested = UniquePtr::allocate(GoodBox::new(7u8));
    let coerced: u8 = *coerce_through(&nested);
    let manual: u8 = **nested;
    (coerced, manual)
}

/// A pointer of one's own with both halves of the protocol: read access to
/// the text behind it, and write access to the number behind it.
pub fn read_and_write_through() -> (seen: (String, i32))
    ensures
        seen.0@ == "hello, rust!"@,
        seen.1 == 2,
{
    let s = GoodBox::new(String::from_str("hello, rust!"));
    let text = String::from_str(display(&s));
    let mut gb1 = GoodBox::new(1i32);
    *gb1 = 2;
    (text, *gb1)
}

} // verus!

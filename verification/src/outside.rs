//! The calls that leave the verified code. Each contract here is taken on
//! trust from the documentation or source of the function that it wraps.

use vstd::prelude::*;
use rand::Rng;

verus! {

/// Asks the `rand` crate's thread-local generator (`rand::thread_rng`, read
/// through `Rng::gen`) for one 32-bit value. Nothing is claimed of the value:
/// it differs from call to call. `thread_rng` panics if the operating system
/// cannot supply entropy when the thread's generator is first set up.
#[verifier::external_body]
pub(crate) fn entropy_word() -> u32 {
    rand::thread_rng().gen::<u32>()
}

/// `String::push`: appends one character to the end of the string.
#[verifier::external_body]
pub(crate) fn push_char(s: &mut String, c: char)
    ensures
        final(s)@ == old(s)@.push(c),
{
    s.push(c)
}

/// `<[T]>::swap`: exchanges the items at positions `a` and `b`, and panics
/// if either position lies outside the slice.
#[verifier::external_body]
pub(crate) fn swap_items<T>(items: &mut [T], a: usize, b: usize)
    requires
        a < old(items)@.len(),
        b < old(items)@.len(),
    ensures
        final(items)@ == old(items)@.update(a as int, old(items)@[b as int]).update(
            b as int,
            old(items)@[a as int],
        ),
{
    items.swap(a, b)
}

} // verus!

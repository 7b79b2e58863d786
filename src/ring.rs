//! The bounded first-in first-out buffer of `rudac` that the history is
//! kept in, with the contracts that its source gives it.

use rudac::queue::Circular;
use vstd::prelude::*;

verus! {

#[verifier::external_type_specification]
#[verifier::external_body]
#[verifier::reject_recursive_types(T)]
pub struct ExCircular<T>(Circular<T>);

/// The items of a circular buffer of strings, oldest first.
pub uninterp spec fn circular_items(q: Circular<String>) -> Seq<Seq<char>>;

/// The capacity that a circular buffer of strings was created with.
pub uninterp spec fn circular_capacity(q: Circular<String>) -> nat;

/// Relies on `Circular::new`: an empty buffer that keeps at most `capacity`
/// items (it allocates one slot more, so `capacity + 1` must not overflow).
#[verifier::external_body]
pub(crate) fn circular_new(capacity: usize) -> (r: Circular<String>)
    requires
        capacity < usize::MAX,
    ensures
        circular_items(r) == Seq::<Seq<char>>::empty(),
        circular_capacity(r) == capacity,
{
    Circular::new(capacity)
}

/// Relies on `Circular::enqueue`: the item goes to the back; when the buffer
/// already holds `capacity` items the oldest one is dropped first; a buffer
/// created with capacity zero ignores the call.
#[verifier::external_body]
pub(crate) fn circular_enqueue(q: &mut Circular<String>, item: String)
    ensures
        circular_capacity(*final(q)) == circular_capacity(*old(q)),
        circular_items(*final(q)) == (if circular_capacity(*old(q)) == 0 {
            circular_items(*old(q))
        } else if circular_items(*old(q)).len() >= circular_capacity(*old(q)) {
            circular_items(*old(q)).drop_first().push(item@)
        } else {
            circular_items(*old(q)).push(item@)
        }),
{
    q.enqueue(item)
}

/// Relies on `Circular::size`: the number of items held.
#[verifier::external_body]
pub(crate) fn circular_size(q: &Circular<String>) -> (r: usize)
    ensures
        r == circular_items(*q).len(),
{
    q.size()
}

/// Relies on `Circular`'s `Index` impl: position `i` counts from the oldest
/// item, and an index past the last item panics.
#[verifier::external_body]
pub(crate) fn circular_at(q: &Circular<String>, i: usize) -> (r: &String)
    requires
        i < circular_items(*q).len(),
    ensures
        r@ == circular_items(*q)[i as int],
{
    &q[i]
}

} // verus!

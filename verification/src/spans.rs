//! A stack of spans, kept in a `SmallVec` so that the components of an
//! ordinary path need no heap allocation. A span `(a, b)` stands for the
//! characters `a..b` of a text. What `smallvec` does is not verified: the
//! functions here state it.

use smallvec::SmallVec;
use vstd::prelude::*;

verus! {

/// A growable list of spans backed by `smallvec::SmallVec`.
#[verifier::external_body]
pub struct SpanStack {
    items: SmallVec<[(usize, usize); 8]>,
}

/// The spans that a stack holds, oldest first.
pub uninterp spec fn span_items(stack: SpanStack) -> Seq<(usize, usize)>;

/// `SmallVec::new`: a vector that holds nothing.
#[verifier::external_body]
pub(crate) fn spans_new() -> (stack: SpanStack)
    ensures
        span_items(stack).len() == 0,
{
    SpanStack { items: SmallVec::new() }
}

/// `SmallVec::push`: the item is appended after those already held.
#[verifier::external_body]
pub(crate) fn spans_push(stack: &mut SpanStack, item: (usize, usize))
    ensures
        span_items(*final(stack)) == span_items(*old(stack)).push(item),
{
    stack.items.push(item)
}

/// `SmallVec::pop`: the newest item leaves and is returned; an empty
/// vector stays as it is and gives `None`.
#[verifier::external_body]
pub(crate) fn spans_pop(stack: &mut SpanStack) -> (item: Option<(usize, usize)>)
    ensures
        span_items(*old(stack)).len() == 0 ==> item is None && span_items(*final(stack))
            == span_items(*old(stack)),
        span_items(*old(stack)).len() > 0 ==> item == Some(span_items(*old(stack)).last())
            && span_items(*final(stack)) == span_items(*old(stack)).drop_last(),
{
    stack.items.pop()
}

/// `SmallVec::len`: the number of items held.
#[verifier::external_body]
pub(crate) fn spans_len(stack: &SpanStack) -> (n: usize)
    ensures
        n == span_items(*stack).len(),
{
    stack.items.len()
}

/// Indexing a `SmallVec`: the item at position `i`.
#[verifier::external_body]
pub(crate) fn spans_get(stack: &SpanStack, i: usize) -> (item: (usize, usize))
    requires
        i < span_items(*stack).len(),
    ensures
        item == span_items(*stack)[i as int],
{
    stack.items[i]
}

} // verus!

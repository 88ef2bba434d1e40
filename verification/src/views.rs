//! Views of sequences of described things.

use vstd::prelude::*;

verus! {

/// The views of `items`, in order.
pub open spec fn views<T: View>(items: Seq<T>) -> Seq<T::V> {
    items.map_values(|item: T| item@)
}

/// Taking one more item adds its view at the end.
pub proof fn lemma_views_step<T: View>(items: Seq<T>, i: int)
    requires
        0 <= i < items.len(),
    ensures
        views(items.take(i + 1)) == views(items.take(i)).push(items[i]@),
{
    assert(views(items.take(i + 1)) =~= views(items.take(i)).push(items[i]@));
}

/// The bytes of an optional buffer.
pub open spec fn bytes_view(buffer: Option<Vec<u8>>) -> Option<Seq<u8>> {
    match buffer {
        Some(bytes) => Some(bytes@),
        None => None,
    }
}

} // verus!

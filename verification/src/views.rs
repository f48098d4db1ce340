//! Views of results and of slices.

use vstd::prelude::*;

verus! {

/// A result with both of its sides taken by their views.
pub open spec fn result_view<T: DeepView, E: DeepView>(result: Result<T, E>) -> Result<T::V, E::V> {
    match result {
        Ok(value) => Ok(value.deep_view()),
        Err(error) => Err(error.deep_view()),
    }
}

/// A sequence with each of its items taken by its view.
pub open spec fn slice_view<T: DeepView>(items: Seq<T>) -> Seq<T::V> {
    Seq::new(items.len(), |i: int| items[i].deep_view())
}

/// The view of a result tells which one it is and what it holds; that of a
/// list, every item in its place.
pub proof fn law_views_tell_everything<T: DeepView, E: DeepView>(value: T, error: E, items: Seq<T>)
    ensures
        result_view::<T, E>(Ok(value)) == Ok::<T::V, E::V>(value.deep_view()),
        result_view::<T, E>(Err(error)) == Err::<T::V, E::V>(error.deep_view()),
        slice_view(items).len() == items.len(),
        forall|i: int|
            0 <= i < items.len() ==> slice_view(items)[i] == (#[trigger] items[i]).deep_view(),
{
}

} // verus!

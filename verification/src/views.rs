//! How changes to a vector show in its deep view.

use vstd::prelude::*;

verus! {

/// Pushing onto a vector pushes the element's view onto the vector's deep
/// view.
pub proof fn lemma_deep_view_push<T: DeepView>(before: Vec<T>, after: Vec<T>, x: T)
    requires
        after@ == before@.push(x),
    ensures
        after.deep_view() == before.deep_view().push(x.deep_view()),
{
}

/// Replacing an element of a vector replaces its view in the vector's deep
/// view.
pub proof fn lemma_deep_view_update<T: DeepView>(before: Vec<T>, after: Vec<T>, i: int, x: T)
    requires
        0 <= i < before@.len(),
        after@ == before@.update(i, x),
    ensures
        after.deep_view() == before.deep_view().update(i, x.deep_view()),
{
}

/// Appending a vector appends its deep view.
pub proof fn lemma_deep_view_add<T: DeepView>(before: Vec<T>, after: Vec<T>, more: Vec<T>)
    requires
        after@ == before@ + more@,
    ensures
        after.deep_view() == before.deep_view() + more.deep_view(),
{
}

} // verus!

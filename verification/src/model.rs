//! How contracts speak of values that hold other values: by their views.
use vstd::prelude::*;

verus! {

/// The views of the elements of a sequence, in order.
pub open spec fn views<T: View>(items: Seq<T>) -> Seq<T::V> {
    items.map_values(|item: T| item@)
}

/// The view of a value that may be absent.
pub open spec fn option_view<T: View>(value: Option<T>) -> Option<T::V> {
    match value {
        Some(v) => Some(v@),
        None => None,
    }
}

/// The view of a value that may have failed to come about.
pub open spec fn result_view<T: View, E>(value: Result<T, E>) -> Result<T::V, E> {
    match value {
        Ok(v) => Ok(v@),
        Err(e) => Err(e),
    }
}

/// The views of the elements of a list that may be absent.
pub open spec fn option_views<T: View>(value: Option<Vec<T>>) -> Option<Seq<T::V>> {
    match value {
        Some(list) => Some(views(list@)),
        None => None,
    }
}

/// The views of the elements of a list that may have failed to come about.
pub open spec fn result_views<T: View, E>(value: Result<Vec<T>, E>) -> Result<Seq<T::V>, E> {
    match value {
        Ok(list) => Ok(views(list@)),
        Err(e) => Err(e),
    }
}

} // verus!

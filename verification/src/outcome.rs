//! Results by what they hold.

use vstd::prelude::*;

verus! {

/// What a result holds: the view of its value, or the view of its error.
pub open spec fn result_view<T: DeepView, E: DeepView>(result: Result<T, E>) -> Result<T::V, E::V> {
    match result {
        Ok(value) => Ok(value.deep_view()),
        Err(error) => Err(error.deep_view()),
    }
}

} // verus!

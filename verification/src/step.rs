//! The turn of a plan: after each reply of the store a plan either asks for
//! another round trip or has finished.

use crate::error::{AppError, AppErrorView};
use vstd::prelude::*;

verus! {

/// Where a plan stands after a reply: it asks for another round trip, or it
/// has finished with a result.
#[derive(Debug, PartialEq, Eq)]
pub enum Step<S, T> {
    /// The next stage, which names the request to make.
    Ask(S),
    /// The result of the whole operation.
    Done(Result<T, AppError>),
}

/// The value of a result.
pub open spec fn result_view<T: DeepView>(result: Result<T, AppError>) -> Result<
    T::V,
    AppErrorView,
> {
    match result {
        Ok(value) => Ok(value.deep_view()),
        Err(err) => Err(err@),
    }
}

} // verus!

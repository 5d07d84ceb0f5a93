//! The shape of an operation that runs on an async runtime.

use std::future::Future;
use vstd::prelude::*;

verus! {

/// A future that ends in the outcome of an operation and can move between
/// threads.
pub trait OperationFuture<T, E>: Future<Output = Result<T, E>> + Send {

}

impl<R: Future<Output = Result<T, E>> + Send, T, E> OperationFuture<T, E> for R {

}

} // verus!

//! Suspendable computations, as the combinators and the timeout see them.

use vstd::prelude::*;

verus! {

/// The outcome of polling a suspendable computation once.
#[derive(Debug, PartialEq, Eq)]
pub enum Poll<T> {
    /// The computation has finished with this value.
    Ready(T),
    /// The computation waits, and has arranged for its waker to be called.
    Pending,
}

impl<T> Poll<T> {
    /// Whether the computation has finished.
    pub fn is_ready(&self) -> (ready: bool)
        ensures
            ready == (*self is Ready),
    {
        match self {
            Poll::Ready(_) => true,
            Poll::Pending => false,
        }
    }

    /// Whether the computation waits.
    pub fn is_pending(&self) -> (pending: bool)
        ensures
            pending == (*self is Pending),
    {
        match self {
            Poll::Ready(_) => false,
            Poll::Pending => true,
        }
    }
}

/// A computation that is polled until it finishes with one value.
///
/// `C` is the context that a poll runs in; the computation reaches its waker through it.
/// What a poll returns is up to the computation: whoever polls is ready for either outcome.
pub trait LocalFuture<C> {
    /// The value that the computation finishes with.
    type Output;

    /// Polls the computation once.
    fn poll(&mut self, cx: &mut C) -> Poll<Self::Output>;
}

/// A lazy sequence that is polled for one item after another, until it ends with `None`.
///
/// `C` is the context that a poll runs in; the sequence reaches its waker through it.
pub trait LocalStream<C> {
    /// The items of the sequence.
    type Item;

    /// Polls the sequence for its next item.
    fn poll_next(&mut self, cx: &mut C) -> Poll<Option<Self::Item>>;
}

} // verus!
